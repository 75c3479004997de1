//! The names that received files are saved under.

use crate::names;
use crate::names::{base_name, split_stem_ext, unreserve, MAX_NAME_BYTES};
use crate::text;
use crate::text::{
    byte_len_upto, chars_of, control, eq_chars, fit_to, fits_in, push_chars, push_decimal,
    string_of, trim, trim_end_char, trim_end_white,
};
use vstd::prelude::*;

verus! {

/// Of an extension that does not survive cutting, so many bytes are put back.
pub const MAX_CUT_EXT_BYTES: usize = 16;

/// So many numbered names are tried where the name itself is taken.
pub const MAX_NUMBERED_NAMES: u32 = 9999;

/// The characters that no file system's names may hold.
pub open spec fn is_forbidden(c: char) -> bool {
    ||| text::is_control(c)
    ||| c == '/'
    ||| c == '\\'
    ||| c == ':'
    ||| c == '*'
    ||| c == '?'
    ||| c == '"'
    ||| c == '<'
    ||| c == '>'
    ||| c == '|'
}

/// An underscore for a forbidden character.
pub open spec fn allowed(c: char) -> char {
    if is_forbidden(c) {
        '_'
    } else {
        c
    }
}

/// The text with underscores for its forbidden characters, without white space at its end and then
/// without dots at its end.
pub open spec fn cleaned(base: Seq<char>) -> Seq<char> {
    text::trim_end_of(text::trim_end(base.map_values(|c: char| allowed(c))), '.')
}

/// A name cut to so many bytes. Where its extension does not survive that, the beginning of the
/// extension takes the place of the end.
pub open spec fn cut_to(name: Seq<char>, max: nat) -> Seq<char> {
    let ext = names::ext_of(name);
    let head = text::fit(name, max);
    let put_back = seq!['.'] + text::fit(ext, MAX_CUT_EXT_BYTES as nat);
    if text::byte_len(name) <= max {
        name
    } else if ext.len() == 0 || names::ext_of(head) == ext {
        head
    } else {
        let used = text::byte_len(put_back);
        let room = if used <= max {
            (max - used) as nat
        } else {
            0
        };
        text::fit(names::stem_of(head), room) + put_back
    }
}

/// What a file is saved under whose path ended in `base`.
pub open spec fn saved_name(base: Seq<char>) -> Seq<char> {
    if cleaned(base).len() == 0 {
        "file"@
    } else {
        cut_to(names::unreserved(cleaned(base)), MAX_NAME_BYTES as nat)
    }
}

/// The text with underscores for its forbidden characters.
fn replace_forbidden(cs: &[char]) -> (r: Vec<char>)
    ensures
        r@ == cs@.map_values(|c: char| allowed(c)),
{
    let mut out: Vec<char> = Vec::new();
    for i in 0..cs.len()
        invariant
            out@ == cs@.take(i as int).map_values(|c: char| allowed(c)),
    {
        let c = cs[i];
        let bad = control(c) || c == '/' || c == '\\' || c == ':' || c == '*' || c == '?' || c
            == '"' || c == '<' || c == '>' || c == '|';
        out.push(
            if bad {
                '_'
            } else {
                c
            },
        );
        assert(out@ =~= cs@.take(i as int + 1).map_values(|c: char| allowed(c)));
    }
    assert(cs@.take(cs@.len() as int) =~= cs@);
    out
}

/// The longest beginning of a text that takes no more than so many bytes.
pub fn truncate_utf8_to_boundary(value: &[char], max_bytes: usize) -> (r: &[char])
    ensures
        r@ == text::fit(value@, max_bytes as nat),
{
    fit_to(value, max_bytes)
}

/// A name cut to so many bytes.
pub fn truncate_file_name_to_limit(name: &[char], max_bytes: usize) -> (r: String)
    ensures
        r@ == cut_to(name@, max_bytes as nat),
{
    if fits_in(name, max_bytes) {
        return string_of(name);
    }
    let (_stem, ext) = split_stem_ext(name);
    let head = truncate_utf8_to_boundary(name, max_bytes);
    if ext.len() == 0 {
        return string_of(head);
    }
    let (head_stem, head_ext) = split_stem_ext(head);
    if eq_chars(head_ext, ext) {
        return string_of(head);
    }
    let mut put_back: Vec<char> = Vec::new();
    put_back.push('.');
    put_back.extend_from_slice(truncate_utf8_to_boundary(ext, MAX_CUT_EXT_BYTES));
    assert(put_back@ =~= seq!['.'] + text::fit(ext@, MAX_CUT_EXT_BYTES as nat));
    let room: usize = max_bytes - byte_len_upto(&put_back, max_bytes);
    let mut out = string_of(truncate_utf8_to_boundary(head_stem, room));
    push_chars(&mut out, &put_back);
    out
}

/// What a file is saved under whose path ended in `base`.
pub fn saved_base_name(base: &str) -> (r: String)
    ensures
        r@ == saved_name(base@),
{
    let replaced = replace_forbidden(&chars_of(base));
    let bare = trim_end_char(trim_end_white(&replaced), '.');
    if bare.len() == 0 {
        return string_of(&chars_of("file"));
    }
    truncate_file_name_to_limit(&unreserve(bare), MAX_NAME_BYTES)
}

/// What a file is saved under that was sent under `name`.
pub fn sanitize_file_name_for_save(name: &str) -> (r: String)
    ensures
        text::trimmed(name@).len() == 0 ==> r@ == "file"@,
        text::trimmed(name@).len() > 0 ==> exists|base: Seq<char>| #[trigger]
            names::is_base_of(text::trimmed(name@), base) && r@ == saved_name(base),
{
    let all = chars_of(name);
    let bare = trim(&all);
    if bare.len() == 0 {
        return string_of(&chars_of("file"));
    }
    let base = base_name(&string_of(bare));
    saved_base_name(&base)
}

/// The name itself, and the numbered names that are tried where it is taken.
pub open spec fn candidate(name: Seq<char>, i: nat) -> Seq<char> {
    let numbered = names::stem_of(name) + "("@ + text::decimal(i) + ")"@;
    if i == 0 {
        name
    } else if names::ext_of(name).len() == 0 {
        numbered
    } else {
        numbered + "."@ + names::ext_of(name)
    }
}

/// The next step in finding a name that is not taken.
#[derive(Debug)]
pub enum DestStep {
    /// Is this name taken? If not, it is the one.
    Probe(String),
    /// All are taken: it is this one.
    Settle(String),
}

/// The next step in finding a name that is not taken, after so many were: the name itself, then the
/// numbered names in order, and the name itself again once they are all taken.
pub fn unique_dest_path(name: &str, taken: u32) -> (r: DestStep)
    ensures
        if taken <= MAX_NUMBERED_NAMES {
            r matches DestStep::Probe(s) && s@ == candidate(name@, taken as nat)
        } else {
            r matches DestStep::Settle(s) && s@ == name@
        },
{
    let all = chars_of(name);
    if taken == 0 {
        return DestStep::Probe(string_of(&all));
    }
    if taken > MAX_NUMBERED_NAMES {
        return DestStep::Settle(string_of(&all));
    }
    let (stem, ext) = split_stem_ext(&all);
    let mut out = string_of(stem);
    push_chars(&mut out, &chars_of("("));
    push_decimal(&mut out, taken as u64);
    push_chars(&mut out, &chars_of(")"));
    if ext.len() > 0 {
        push_chars(&mut out, &chars_of("."));
        push_chars(&mut out, ext);
    }
    DestStep::Probe(out)
}

/// What the notice calls a saved file: the name it was given, or the one that was wanted.
pub fn display_name(path_name: Option<&str>, fallback: &str) -> (r: String)
    ensures
        r@ == (match path_name {
            Some(name) => name@,
            None => fallback@,
        }),
{
    match path_name {
        Some(name) => string_of(&chars_of(name)),
        None => string_of(&chars_of(fallback)),
    }
}

/// Numbers are written in decimal each in its own way.
proof fn lemma_decimal_injective(a: nat, b: nat)
    requires
        text::decimal(a) == text::decimal(b),
    ensures
        a == b,
    decreases a + b,
{
    let da = text::decimal(a);
    let db = text::decimal(b);
    text::lemma_decimal_digits(a / 10);
    text::lemma_decimal_digits(b / 10);
    if a >= 10 {
        assert(da == text::decimal(a / 10).push(text::digit(a % 10)));
    }
    if b >= 10 {
        assert(db == text::decimal(b / 10).push(text::digit(b % 10)));
    }
    assert(da.last() == text::digit(a % 10));
    assert(db.last() == text::digit(b % 10));
    assert(a % 10 == b % 10);
    if a >= 10 && b >= 10 {
        assert(da.drop_last() =~= text::decimal(a / 10));
        assert(db.drop_last() =~= text::decimal(b / 10));
        lemma_decimal_injective(a / 10, b / 10);
    }
}

/// No numbered name is tried twice.
pub proof fn law_numbered_names_differ(name: Seq<char>, i: nat, j: nat)
    requires
        i != j,
        i > 0,
        j > 0,
    ensures
        candidate(name, i) != candidate(name, j),
{
    if candidate(name, i) == candidate(name, j) {
        let stem = names::stem_of(name);
        let ext = names::ext_of(name);
        let tail = if ext.len() == 0 {
            ")"@
        } else {
            ")"@ + "."@ + ext
        };
        let head = stem + "("@;
        let di = text::decimal(i);
        let dj = text::decimal(j);
        assert(candidate(name, i) =~= head + di + tail);
        assert(candidate(name, j) =~= head + dj + tail);
        let ci = candidate(name, i);
        assert(di.len() == dj.len());
        assert(di =~= ci.subrange(head.len() as int, (head.len() + di.len()) as int));
        assert(dj =~= ci.subrange(head.len() as int, (head.len() + di.len()) as int));
        lemma_decimal_injective(i, j);
    }
}

/// A text is not emptied by cutting it to four bytes or more.
proof fn lemma_fit_not_empty(s: Seq<char>, max: nat)
    requires
        s.len() > 0,
        max >= 4,
    ensures
        text::fit(s, max).len() > 0,
    decreases s.len(),
{
    if s.len() == 1 {
        assert(text::byte_len(s.drop_last()) == 0);
    } else {
        lemma_fit_not_empty(s.drop_last(), max);
    }
}

/// A saved name is not empty and takes no more than the limit's bytes.
pub proof fn law_saved_name_fits(base: Seq<char>)
    ensures
        0 < saved_name(base).len(),
        text::byte_len(saved_name(base)) <= MAX_NAME_BYTES,
{
    if cleaned(base).len() == 0 {
        reveal_strlit("file");
        assert(text::byte_len("file"@) <= 16) by {
            lemma_byte_len_bound("file"@);
        }
    } else {
        let name = names::unreserved(cleaned(base));
        let max = MAX_NAME_BYTES as nat;
        lemma_fit_not_empty(name, max);
        text::lemma_fit(name, max);
        let head = text::fit(name, max);
        let ext = text::fit(names::ext_of(name), MAX_CUT_EXT_BYTES as nat);
        text::lemma_fit(names::ext_of(name), MAX_CUT_EXT_BYTES as nat);
        text::lemma_byte_len_add(seq!['.'], ext);
        lemma_byte_len_bound(seq!['.']);
        let put_back = seq!['.'] + ext;
        let room = (max - text::byte_len(put_back)) as nat;
        text::lemma_fit(names::stem_of(head), room);
        text::lemma_byte_len_add(text::fit(names::stem_of(head), room), put_back);
    }
}

/// No character takes more than four bytes.
proof fn lemma_byte_len_bound(s: Seq<char>)
    ensures
        text::byte_len(s) <= 4 * s.len(),
    decreases s.len(),
{
    if s.len() > 0 {
        lemma_byte_len_bound(s.drop_last());
    }
}

/// Holds the text no forbidden character?
pub open spec fn is_clean(s: Seq<char>) -> bool {
    forall|i: int| 0 <= i < s.len() ==> !is_forbidden(#[trigger] s[i])
}

proof fn lemma_trim_end_prefix(s: Seq<char>)
    ensures
        text::trim_end(s).is_prefix_of(s),
    decreases s.len(),
{
    if s.len() > 0 && text::is_white(s.last()) {
        lemma_trim_end_prefix(s.drop_last());
    }
}

proof fn lemma_trim_end_of_prefix(s: Seq<char>, c: char)
    ensures
        text::trim_end_of(s, c).is_prefix_of(s),
    decreases s.len(),
{
    if s.len() > 0 && s.last() == c {
        lemma_trim_end_of_prefix(s.drop_last(), c);
    }
}

/// A saved name holds no forbidden character: no control character, no separator of paths.
pub proof fn law_saved_name_is_clean(base: Seq<char>)
    ensures
        is_clean(saved_name(base)),
{
    reveal_strlit("file");
    let replaced = base.map_values(|c: char| allowed(c));
    assert(is_clean(replaced));
    lemma_trim_end_prefix(replaced);
    lemma_trim_end_of_prefix(text::trim_end(replaced), '.');
    assert(is_clean(text::trim_end(replaced))) by {
        let t = text::trim_end(replaced);
        assert forall|i: int| 0 <= i < t.len() implies !is_forbidden(#[trigger] t[i]) by {
            assert(t[i] == replaced[i]);
        }
    }
    assert(is_clean(cleaned(base))) by {
        let t = cleaned(base);
        let u = text::trim_end(replaced);
        assert forall|i: int| 0 <= i < t.len() implies !is_forbidden(#[trigger] t[i]) by {
            assert(t[i] == u[i]);
        }
    }
    if cleaned(base).len() > 0 {
        let name = names::unreserved(cleaned(base));
        assert(is_clean(name));
        let max = MAX_NAME_BYTES as nat;
        text::lemma_last_at(name, '.');
        text::lemma_fit(name, max);
        let head = text::fit(name, max);
        assert(is_clean(head)) by {
            assert forall|i: int| 0 <= i < head.len() implies !is_forbidden(
                #[trigger] head[i],
            ) by {
                assert(head[i] == name[i]);
            }
        }
        text::lemma_last_at(head, '.');
        let ext = names::ext_of(name);
        let cut_ext = text::fit(ext, MAX_CUT_EXT_BYTES as nat);
        text::lemma_fit(ext, MAX_CUT_EXT_BYTES as nat);
        assert(is_clean(cut_ext)) by {
            assert forall|i: int| 0 <= i < cut_ext.len() implies !is_forbidden(
                #[trigger] cut_ext[i],
            ) by {
                assert(cut_ext[i] == ext[i]);
            }
        }
        let stem = names::stem_of(head);
        let put_back = seq!['.'] + cut_ext;
        let used = text::byte_len(put_back);
        let room = if used <= max {
            (max - used) as nat
        } else {
            0
        };
        text::lemma_fit(stem, room);
        let cut_stem = text::fit(stem, room);
        assert(is_clean(cut_stem)) by {
            assert forall|i: int| 0 <= i < cut_stem.len() implies !is_forbidden(
                #[trigger] cut_stem[i],
            ) by {
                assert(cut_stem[i] == stem[i]);
            }
        }
    }
}

/// Reserved names begin with a few letters only.
proof fn lemma_reserved_start(stem: Seq<char>)
    requires
        names::is_reserved(stem),
    ensures
        stem.len() > 0,
        stem[0] != 'f',
        stem[0] != '_',
{
    reveal_strlit("con");
    reveal_strlit("prn");
    reveal_strlit("aux");
    reveal_strlit("nul");
    reveal_strlit("com");
    reveal_strlit("lpt");
    let low = text::lower(stem);
    assert(low.len() == stem.len());
    if "com"@.is_prefix_of(low) {
        assert(low[0] == "com"@[0]);
    }
    if "lpt"@.is_prefix_of(low) {
        assert(low[0] == "lpt"@[0]);
    }
    assert(low[0] == text::lower_char(stem[0]));
}

/// A name that need not be cut is saved under no reserved name.
pub proof fn law_saved_name_is_not_reserved(base: Seq<char>)
    requires
        text::byte_len(names::unreserved(cleaned(base))) <= MAX_NAME_BYTES,
    ensures
        !names::is_reserved(names::stem_of(saved_name(base))),
{
    reveal_strlit("file");
    let name = saved_name(base);
    text::lemma_last_at(name, '.');
    let stem = names::stem_of(name);
    if names::is_reserved(stem) {
        lemma_reserved_start(stem);
        assert(stem[0] == name[0]);
    }
}

} // verus!
