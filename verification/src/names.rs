//! File names: which part of a path is the name, which names are reserved, and what a name from
//! elsewhere is made into before a file is stored under it.

use crate::ids::{id_string, Id};
use crate::text::{
    byte_len_upto, chars_of, control, eq_lit, fit_to, fits_in, push_chars, rfind_char, string_of,
    strip_prefix, to_lower, to_vec, trim, trim_end_char,
};
use std::path::Path;
use vstd::prelude::*;

verus! {

/// Names longer than this many bytes are cut.
pub const MAX_NAME_BYTES: usize = 255;

/// The last component of a path whose components are separated by slashes: trailing slashes and
/// `.` components are passed over, and `..` is no name.
pub open spec fn last_component(path: Seq<char>) -> Option<Seq<char>>
    decreases path.len(),
{
    let i = crate::text::last_at(path, '/');
    let tail = path.skip(i + 1);
    if tail.len() == 0 || tail == seq!['.'] {
        if 0 < i < path.len() {
            last_component(path.take(i))
        } else {
            None
        }
    } else if tail == seq!['.', '.'] {
        None
    } else {
        Some(tail)
    }
}

/// Paths that are taken apart the same way on every platform: no backslash, no colon, and no two
/// slashes at the start.
pub open spec fn is_portable(path: Seq<char>) -> bool {
    &&& !path.contains('\\')
    &&& !path.contains(':')
    &&& !(path.len() >= 2 && path[0] == '/' && path[1] == '/')
}

/// `Path::file_name`: the last component of a path, `None` where there is none or it is `..`.
/// Stated in full for portable paths; the others are taken apart by the rules of the platform, and
/// of them it is only said that the name is a part of the path.
#[verifier::external_body]
pub(crate) fn path_file_name(path: &str) -> (r: Option<String>)
    ensures
        is_portable(path@) ==> crate::text::opt_chars(r) == last_component(path@),
        r matches Some(name) ==> crate::text::has_part(path@, name@),
{
    Path::new(path).file_name().and_then(|name| name.to_str()).map(|name| name.to_string())
}

/// May `base` be what stands for a path's name: its last component, or the whole path where it has
/// none?
pub open spec fn is_base_of(path: Seq<char>, base: Seq<char>) -> bool {
    &&& is_portable(path) ==> base == match last_component(path) {
        Some(name) => name,
        None => path,
    }
    &&& base == path || crate::text::has_part(path, base)
}

/// A path's last component, or the whole path where it has none.
pub fn base_name(path: &str) -> (r: String)
    ensures
        is_base_of(path@, r@),
{
    match path_file_name(path) {
        Some(name) => name,
        None => string_of(&chars_of(path)),
    }
}

/// The position of the dot before the extension; `-1` where there is no extension. A dot at the
/// very start does not count.
pub open spec fn ext_dot(name: Seq<char>) -> int {
    let i = crate::text::last_at(name, '.');
    if i > 0 {
        i
    } else {
        -1
    }
}

/// The name without its extension.
pub open spec fn stem_of(name: Seq<char>) -> Seq<char> {
    if ext_dot(name) > 0 {
        name.take(ext_dot(name))
    } else {
        name
    }
}

/// The extension without its dot, empty where there is none.
pub open spec fn ext_of(name: Seq<char>) -> Seq<char> {
    if ext_dot(name) > 0 {
        name.skip(ext_dot(name) + 1)
    } else {
        Seq::empty()
    }
}

/// A name taken apart into stem and extension.
pub fn split_stem_ext(name: &[char]) -> (r: (&[char], &[char]))
    ensures
        r.0@ == stem_of(name@),
        r.1@ == ext_of(name@),
{
    proof {
        crate::text::lemma_last_at(name@, '.');
    }
    match rfind_char(name, '.') {
        Some(i) if i > 0 => {
            let len: usize = name.len();
            let stem = vstd::slice::slice_subrange(name, 0, i);
            let ext = vstd::slice::slice_subrange(name, i + 1, len);
            assert(stem@ =~= stem_of(name@));
            assert(ext@ =~= ext_of(name@));
            (stem, ext)
        },
        _ => {
            let ext = vstd::slice::slice_subrange(name, 0, 0);
            assert(ext@ =~= ext_of(name@));
            (name, ext)
        },
    }
}

/// The device names that Windows reserves, in any mixture of capitals and small letters.
pub open spec fn is_reserved(stem: Seq<char>) -> bool {
    let s = crate::text::lower(stem);
    ||| s == "con"@
    ||| s == "prn"@
    ||| s == "aux"@
    ||| s == "nul"@
    ||| s.len() == 4 && ("com"@.is_prefix_of(s) || "lpt"@.is_prefix_of(s)) && '1' <= s[3] <= '9'
}

/// Does Windows reserve this name?
pub fn reserved(stem: &[char]) -> (r: bool)
    ensures
        r == is_reserved(stem@),
{
    let s = to_lower(stem);
    if eq_lit(&s, "con") || eq_lit(&s, "prn") || eq_lit(&s, "aux") || eq_lit(&s, "nul") {
        return true;
    }
    s.len() == 4 && (strip_prefix(&s, "com").is_some() || strip_prefix(&s, "lpt").is_some())
        && '1' <= s[3] && s[3] <= '9'
}

/// The characters that a stored name may hold: no control characters, no double quote and no path
/// separators.
pub open spec fn is_storable(c: char) -> bool {
    !is_control_or_separator(c)
}

/// Control characters, the double quote and the path separators.
pub open spec fn is_control_or_separator(c: char) -> bool {
    crate::text::is_control(c) || c == '"' || c == '\\' || c == '/'
}

/// The storable characters of a text, in order.
pub open spec fn storable(s: Seq<char>) -> Seq<char>
    decreases s.len(),
{
    if s.len() == 0 {
        s
    } else if is_storable(s.last()) {
        storable(s.drop_last()).push(s.last())
    } else {
        storable(s.drop_last())
    }
}

/// An underscore before a reserved name.
pub open spec fn unreserved(name: Seq<char>) -> Seq<char> {
    if is_reserved(stem_of(name)) {
        seq!['_'] + name
    } else {
        name
    }
}

/// The extension with its dot, empty where there is none.
pub open spec fn dotted_ext(name: Seq<char>) -> Seq<char> {
    if ext_dot(name) > 0 {
        name.skip(ext_dot(name))
    } else {
        Seq::empty()
    }
}

/// A name cut to the byte limit: as much of its beginning as fits before its extension, and the
/// extension. Of an extension that is too long by itself, as much as fits.
pub open spec fn cut_name(name: Seq<char>) -> Seq<char> {
    let ext = dotted_ext(name);
    let used = crate::text::byte_len(ext);
    if crate::text::byte_len(name) <= MAX_NAME_BYTES {
        name
    } else if used <= MAX_NAME_BYTES {
        crate::text::fit(name, (MAX_NAME_BYTES - used) as nat) + ext
    } else {
        crate::text::fit(ext, MAX_NAME_BYTES as nat)
    }
}

/// What the server stores for a file whose path ended in `base`: its storable characters without
/// surrounding white space and then without dots at the end, with an underscore before a reserved
/// name, and cut to the byte limit; the identifier's text where nothing is left.
pub open spec fn stored_name(base: Seq<char>, id: Id) -> Seq<char> {
    let name = crate::text::trim_end_of(crate::text::trimmed(storable(base)), '.');
    if name.len() == 0 {
        crate::ids::uuid_text(id)
    } else {
        cut_name(unreserved(name))
    }
}

/// The storable characters of a text.
fn keep_storable(cs: &[char]) -> (r: Vec<char>)
    ensures
        r@ == storable(cs@),
{
    let mut out: Vec<char> = Vec::new();
    for i in 0..cs.len()
        invariant
            out@ == storable(cs@.take(i as int)),
    {
        let c = cs[i];
        proof {
            assert(cs@.take(i as int + 1).drop_last() =~= cs@.take(i as int));
        }
        if !(control(c) || c == '"' || c == '\\' || c == '/') {
            out.push(c);
        }
    }
    assert(cs@.take(cs@.len() as int) =~= cs@);
    out
}

/// An underscore before a reserved name.
pub fn unreserve(name: &[char]) -> (r: Vec<char>)
    ensures
        r@ == unreserved(name@),
{
    let (stem, _ext) = split_stem_ext(name);
    if reserved(stem) {
        let mut out: Vec<char> = Vec::new();
        out.push('_');
        out.extend_from_slice(name);
        assert(out@ =~= unreserved(name@));
        out
    } else {
        to_vec(name)
    }
}

/// A name cut to the byte limit.
fn cut(name: &[char]) -> (r: String)
    ensures
        r@ == cut_name(name@),
{
    if fits_in(name, MAX_NAME_BYTES) {
        return string_of(name);
    }
    proof {
        crate::text::lemma_last_at(name@, '.');
    }
    let dot: usize = match rfind_char(name, '.') {
        Some(i) if i > 0 => i,
        _ => name.len(),
    };
    let ext = vstd::slice::slice_subrange(name, dot, name.len());
    assert(ext@ =~= dotted_ext(name@));
    if !fits_in(ext, MAX_NAME_BYTES) {
        return string_of(fit_to(ext, MAX_NAME_BYTES));
    }
    let used = byte_len_upto(ext, MAX_NAME_BYTES);
    let head = fit_to(name, MAX_NAME_BYTES - used);
    let mut out = string_of(head);
    push_chars(&mut out, ext);
    out
}

/// The name under which the server stores a file whose path ended in `base`.
pub fn sanitize_base_name(base: &str, fallback_id: &Id) -> (r: String)
    ensures
        r@ == stored_name(base@, *fallback_id),
{
    let all = chars_of(base);
    let kept = keep_storable(&all);
    let bare = trim_end_char(trim(&kept), '.');
    if bare.len() == 0 {
        return id_string(*fallback_id);
    }
    let name = unreserve(bare);
    cut(&name)
}

/// The name under which the server stores a file that was uploaded under `raw`.
///
/// Only the last component of `raw` counts. It loses its control characters, quotes and separators,
/// then the white space around it, then the dots at its end. A reserved device name gets an
/// underscore before it. What is longer than the byte limit is cut before its extension, and an
/// extension that is too long is cut itself. Where nothing is left of the name it is the text of
/// `fallback_id`.
pub fn sanitize_file_name(raw: &str, fallback_id: &Id) -> (r: String)
    ensures
        exists|base: Seq<char>| #[trigger]
            is_base_of(raw@, base) && r@ == stored_name(base, *fallback_id),
{
    let base = base_name(raw);
    sanitize_base_name(&base, fallback_id)
}

/// A stored name fits into the byte limit, and is not empty.
pub proof fn law_stored_name_fits(base: Seq<char>, id: Id)
    ensures
        crate::text::byte_len(stored_name(base, id)) <= MAX_NAME_BYTES,
        stored_name(base, id).len() > 0,
{
    let name = crate::text::trim_end_of(crate::text::trimmed(storable(base)), '.');
    if name.len() == 0 {
        lemma_uuid_text(id);
    } else {
        let n = unreserved(name);
        let ext = dotted_ext(n);
        let used = crate::text::byte_len(ext);
        if used > MAX_NAME_BYTES {
            crate::text::lemma_fit(ext, MAX_NAME_BYTES as nat);
            lemma_something_fits(ext, MAX_NAME_BYTES as nat);
        } else if crate::text::byte_len(n) > MAX_NAME_BYTES {
            let room = (MAX_NAME_BYTES - crate::text::byte_len(ext)) as nat;
            crate::text::lemma_fit(n, room);
            crate::text::lemma_byte_len_add(crate::text::fit(n, room), ext);
            if ext.len() == 0 {
                lemma_something_fits(n, room);
            }
        }
    }
}

/// A text that is not empty has a beginning that is not empty in any room of four bytes or more.
proof fn lemma_something_fits(s: Seq<char>, room: nat)
    requires
        s.len() > 0,
        room >= 4,
    ensures
        crate::text::fit(s, room).len() > 0,
    decreases s.len(),
{
    if s.len() == 1 {
        assert(crate::text::byte_len(s.drop_last()) == 0);
    } else {
        lemma_something_fits(s.drop_last(), room);
    }
}

/// The text of an identifier takes thirty-six characters, of one byte each.
pub proof fn lemma_uuid_text(id: Id)
    ensures
        crate::ids::uuid_text(id).len() == 36,
        crate::text::byte_len(crate::ids::uuid_text(id)) == 36,
{
    lemma_hex_digits(id as nat, 32);
    lemma_ascii_len(crate::ids::uuid_text(id));
}

proof fn lemma_hex_digits(n: nat, count: nat)
    ensures
        crate::ids::hex_digits(n, count).len() == count,
        forall|i: int|
            0 <= i < count ==> (#[trigger] crate::ids::hex_digits(n, count)[i]) as u32 <= 0x7f,
    decreases count,
{
    if count > 0 {
        lemma_hex_digits(n / 16, (count - 1) as nat);
    }
}

proof fn lemma_ascii_len(s: Seq<char>)
    requires
        forall|i: int| 0 <= i < s.len() ==> (#[trigger] s[i]) as u32 <= 0x7f,
    ensures
        crate::text::byte_len(s) == s.len(),
    decreases s.len(),
{
    if s.len() > 0 {
        lemma_ascii_len(s.drop_last());
    }
}

/// A stored name holds only storable characters, wherever it was made from the given name.
pub proof fn law_stored_name_is_storable(base: Seq<char>, id: Id, i: int)
    requires
        0 <= i < stored_name(base, id).len(),
    ensures
        is_storable(stored_name(base, id)[i]),
{
    let kept = storable(base);
    let name = crate::text::trim_end_of(crate::text::trimmed(kept), '.');
    lemma_storable(base);
    lemma_trims_are_parts(kept);
    if name.len() == 0 {
        lemma_hex_digits(id as nat, 32);
        lemma_hex_storable(id as nat, 32);
    } else {
        let n = unreserved(name);
        assert forall|j: int| 0 <= j < n.len() implies is_storable(#[trigger] n[j]) by {
            if is_reserved(stem_of(name)) && j > 0 {
                assert(n[j] == name[j - 1]);
            }
        }
        crate::text::lemma_last_at(n, '.');
        let used = crate::text::byte_len(dotted_ext(n));
        if used <= MAX_NAME_BYTES {
            crate::text::lemma_fit(n, (MAX_NAME_BYTES - used) as nat);
        } else {
            crate::text::lemma_fit(dotted_ext(n), MAX_NAME_BYTES as nat);
        }
    }
}

proof fn lemma_storable(s: Seq<char>)
    ensures
        forall|i: int| 0 <= i < storable(s).len() ==> is_storable(#[trigger] storable(s)[i]),
    decreases s.len(),
{
    if s.len() > 0 {
        let t = s.drop_last();
        lemma_storable(t);
        assert forall|i: int| 0 <= i < storable(s).len() implies is_storable(
            #[trigger] storable(s)[i],
        ) by {
            if i < storable(t).len() {
                assert(storable(s)[i] == storable(t)[i]);
            }
        }
    }
}

proof fn lemma_hex_storable(n: nat, count: nat)
    ensures
        forall|i: int|
            0 <= i < count ==> is_storable(#[trigger] crate::ids::hex_digits(n, count)[i]),
        crate::ids::hex_digits(n, count).len() == count,
    decreases count,
{
    if count > 0 {
        lemma_hex_storable(n / 16, (count - 1) as nat);
    }
}

/// Whatever trimming leaves holds only characters of the text.
proof fn lemma_trims_are_parts(s: Seq<char>)
    ensures
        forall|i: int|
            0 <= i < crate::text::trim_end_of(crate::text::trimmed(s), '.').len() ==> s.contains(
                #[trigger] crate::text::trim_end_of(crate::text::trimmed(s), '.')[i],
            ),
{
    let a = crate::text::trim_end(s);
    let b = crate::text::trim_start(a);
    let c = crate::text::trim_end_of(b, '.');
    lemma_trim_end_part(s);
    lemma_trim_start_part(a);
    lemma_trim_end_of_part(b, '.');
    assert forall|i: int| 0 <= i < c.len() implies s.contains(#[trigger] c[i]) by {
        assert(b.contains(c[i]));
        let j = choose|j: int| 0 <= j < b.len() && b[j] == c[i];
        assert(a.contains(b[j]));
        let k = choose|k: int| 0 <= k < a.len() && a[k] == b[j];
        assert(s.contains(a[k]));
    }
}

proof fn lemma_trim_end_part(s: Seq<char>)
    ensures
        forall|i: int|
            0 <= i < crate::text::trim_end(s).len() ==> s.contains(
                #[trigger] crate::text::trim_end(s)[i],
            ),
    decreases s.len(),
{
    if s.len() > 0 && crate::text::is_white(s.last()) {
        let t = s.drop_last();
        lemma_trim_end_part(t);
        assert forall|i: int| 0 <= i < crate::text::trim_end(s).len() implies s.contains(
            #[trigger] crate::text::trim_end(s)[i],
        ) by {
            let j = choose|j: int| 0 <= j < t.len() && t[j] == crate::text::trim_end(t)[i];
            assert(s[j] == t[j]);
        }
    }
}

proof fn lemma_trim_start_part(s: Seq<char>)
    ensures
        forall|i: int|
            0 <= i < crate::text::trim_start(s).len() ==> s.contains(
                #[trigger] crate::text::trim_start(s)[i],
            ),
    decreases s.len(),
{
    if s.len() > 0 && crate::text::is_white(s[0]) {
        let t = s.drop_first();
        lemma_trim_start_part(t);
        assert forall|i: int| 0 <= i < crate::text::trim_start(s).len() implies s.contains(
            #[trigger] crate::text::trim_start(s)[i],
        ) by {
            let j = choose|j: int| 0 <= j < t.len() && t[j] == crate::text::trim_start(t)[i];
            assert(s[j + 1] == t[j]);
        }
    }
}

proof fn lemma_trim_end_of_part(s: Seq<char>, c: char)
    ensures
        forall|i: int|
            0 <= i < crate::text::trim_end_of(s, c).len() ==> s.contains(
                #[trigger] crate::text::trim_end_of(s, c)[i],
            ),
    decreases s.len(),
{
    if s.len() > 0 && s.last() == c {
        let t = s.drop_last();
        lemma_trim_end_of_part(t, c);
        assert forall|i: int| 0 <= i < crate::text::trim_end_of(s, c).len() implies s.contains(
            #[trigger] crate::text::trim_end_of(s, c)[i],
        ) by {
            let j = choose|j: int| 0 <= j < t.len() && t[j] == crate::text::trim_end_of(t, c)[i];
            assert(s[j] == t[j]);
        }
    }
}

} // verus!
