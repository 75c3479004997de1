//! What holds of files on the PC: that they are what was sent, and what they are called.

use crate::client::dib;
use crate::client::download;
use crate::client::download::{DownloadErrorView, FileChunk, Location, StreamInput, StreamReplyView};
use crate::client::save_name;
use crate::digest;
use crate::names;
use crate::text;
use vstd::prelude::*;

verus! {

/// The body of a stream is a whole file exactly where its last thirty-two bytes are the digest of all
/// the others, and then the others are the file.
pub proof fn law_body_is_file_and_digest(file: Seq<u8>, end: Seq<u8>)
    requires
        end.len() == 32,
    ensures
        download::is_whole(file + end) <==> end == digest::sha256_of(file),
        download::file_part(file + end) == file,
{
    let body = file + end;
    if file.len() == 0 {
        assert(download::file_part(body) =~= file);
    } else {
        assert(body.take(body.len() - 32) =~= file);
    }
    assert(body.skip(file.len() as int) =~= end);
}

/// A stream over the event connection succeeds exactly where it comes to its end with the digest of
/// all the bytes that came before; data before the end is taken, as much as can be counted.
pub proof fn law_stream_is_checked(
    before: Seq<u8>,
    chunk: FileChunk,
    name: Seq<char>,
    code: String,
    message: String,
)
    ensures
        chunk.is_last ==> (download::stream_error(StreamInput::Chunk(&chunk), before, name) is None
            <==> chunk.sha256@ == digest::sha256_of(before)),
        !chunk.is_last && before.len() + chunk.data@.len() <= u64::MAX ==> download::stream_error(
            StreamInput::Chunk(&chunk),
            before,
            name,
        ) is None,
        download::stream_error(StreamInput::Closed, before, name) is Some,
        download::stream_error(StreamInput::Failed { code, message }, before, name) is Some,
{
}

/// A reply lets a download begin exactly where it is a success. Where the file is not there, or the
/// caller may not have it, there is no point in trying again; with any other reply there is.
pub proof fn law_reply_decides_the_download(status: u16, words: Seq<char>)
    ensures
        ({
            let error = download::status_error(status, words);
            &&& error is None <==> 200 <= status <= 299
            &&& status == 404 || status == 401 ==> error is Some && error->0 is Terminal
            &&& !(200 <= status <= 299) && status != 404 && status != 401 ==> error is Some
                && error->0 is Transient
            &&& error matches Some(DownloadErrorView::Transient(m)) ==> words.is_suffix_of(m)
            &&& error matches Some(DownloadErrorView::Terminal(m)) ==> words.is_suffix_of(m)
        }),
{
    let message = "⚠ 文件下载失败：HTTP "@ + words;
    assert(message.subrange(message.len() - words.len(), message.len() as int) =~= words);
}

/// A download has to have the digest that was announced; only where none was announced, the one that
/// the reply names; and none will do where neither names one.
pub proof fn law_announced_digest_counts(announced: Seq<char>, named: Option<Seq<char>>)
    ensures
        announced.len() > 0 ==> download::digest_to_have(announced, named) == announced,
        announced.len() == 0 && named is Some ==> Some(download::digest_to_have(announced, named))
            == named,
        announced.len() == 0 && named is None ==> download::digest_to_have(announced, named).len()
            == 0,
{
}

/// A success is a stream; a reply that sends the PC on leads to the address that it names, with the
/// digest that it names, and only where it names both; everything else is a failure.
pub proof fn law_stream_reply(
    status: u16,
    words: Seq<char>,
    sha256: Option<Seq<char>>,
    location: Location,
)
    ensures
        ({
            let leads = download::stream_reply(status, words, sha256, location);
            &&& leads is Body <==> 200 <= status <= 299
            &&& leads matches StreamReplyView::Elsewhere { url, sha256: digest } ==> {
                &&& status == 302
                &&& location matches Location::Url(to) && url == to@
                &&& sha256 == Some(digest)
                &&& digest.len() == 64
            }
            &&& status == 302 && (location matches Location::Url(_)) && (sha256 matches Some(s)
                && s.len() == 64 && forall|i: int|
                0 <= i < 64 ==> ('0' <= #[trigger] s[i] <= '9' || 'a' <= s[i] <= 'f' || 'A' <= s[i]
                    <= 'F')) ==> leads is Elsewhere
        }),
{
}

/// The receipt of a file is reported to the server that announced it, at the file's own address.
pub proof fn law_receipt_goes_to_the_file(base: Seq<char>, slashes: Seq<char>, file_id: Seq<char>)
    requires
        base.len() > 0,
        base.last() != '/',
        forall|i: int| 0 <= i < slashes.len() ==> #[trigger] slashes[i] == '/',
    ensures
        download::ack_address(Some(base + slashes), file_id) == Some(
            base + "/api/files/"@ + file_id + "/ack"@,
        ),
        download::ack_address(None, file_id) is None,
{
    lemma_slashes(base, slashes);
}

/// Slashes at the end of an address are passed over.
pub proof fn lemma_slashes(base: Seq<char>, slashes: Seq<char>)
    requires
        base.len() > 0,
        base.last() != '/',
        forall|i: int| 0 <= i < slashes.len() ==> #[trigger] slashes[i] == '/',
    ensures
        text::trim_end_of(base + slashes, '/') == base,
    decreases slashes.len(),
{
    let all = base + slashes;
    if slashes.len() > 0 {
        assert(all.last() == slashes.last());
        assert(all.drop_last() =~= base + slashes.drop_last());
        lemma_slashes(base, slashes.drop_last());
    } else {
        assert(all =~= base);
    }
}

/// A character that may stand in the name of a file on any system.
pub open spec fn is_harmless(c: char) -> bool {
    &&& c as u32 > 0x1f
    &&& !(0x7f <= c as u32 <= 0x9f)
    &&& c != '/' && c != '\\' && c != ':' && c != '*' && c != '?' && c != '"' && c != '<'
    &&& c != '>' && c != '|'
}

/// A name that no system reserves: it has five characters or more before its first dot, or begins with
/// none of the letters that reserved names begin with.
pub open spec fn is_free(name: Seq<char>) -> bool {
    ||| name.len() >= 5 && name[0] != '.' && name[1] != '.' && name[2] != '.' && name[3] != '.'
        && name[4] != '.'
    ||| {
        let c = name[0];
        c != 'c' && c != 'C' && c != 'p' && c != 'P' && c != 'a' && c != 'A' && c != 'n' && c != 'N'
            && c != 'l' && c != 'L'
    }
}

proof fn lemma_free_is_not_reserved(name: Seq<char>)
    requires
        name.len() > 0,
        is_free(name),
    ensures
        !names::is_reserved(names::stem_of(name)),
{
    reveal_strlit("con");
    reveal_strlit("prn");
    reveal_strlit("aux");
    reveal_strlit("nul");
    reveal_strlit("com");
    reveal_strlit("lpt");
    text::lemma_last_at(name, '.');
    let stem = names::stem_of(name);
    let s = text::lower(stem);
    assert(stem.len() > 0 && stem[0] == name[0]);
    assert(s.len() == stem.len());
    assert(s[0] == text::lower_char(name[0]));
    if name.len() >= 5 && name[0] != '.' && name[1] != '.' && name[2] != '.' && name[3] != '.'
        && name[4] != '.' {
        let i = text::last_at(name, '.');
        if i > 0 {
            assert(name[i] == '.');
            assert(i >= 5);
        }
        assert(stem.len() >= 5);
    } else {
        let c = name[0];
        assert(s[0] != 'c' && s[0] != 'p' && s[0] != 'a' && s[0] != 'n' && s[0] != 'l');
        if "com"@.is_prefix_of(s) {
            assert(s.subrange(0, 3)[0] == "com"@[0]);
        }
        if "lpt"@.is_prefix_of(s) {
            assert(s.subrange(0, 3)[0] == "lpt"@[0]);
        }
        assert("con"@[0] == 'c' && "prn"@[0] == 'p' && "aux"@[0] == 'a' && "nul"@[0] == 'n');
    }
}

/// A file keeps its name on the PC, character for character, where the name is harmless, free, not too
/// long, and does not end in white space or a dot.
pub proof fn law_good_name_is_kept(name: Seq<char>)
    requires
        name.len() > 0,
        text::byte_len(name) <= 255,
        forall|i: int| 0 <= i < name.len() ==> is_harmless(#[trigger] name[i]),
        !text::is_white(name.last()),
        name.last() != '.',
        is_free(name),
    ensures
        save_name::saved_name(name) == name,
        save_name::candidate(save_name::saved_name(name), 0) == name,
{
    let mapped = name.map_values(|c: char| save_name::allowed(c));
    assert(mapped =~= name) by {
        assert forall|i: int| 0 <= i < name.len() implies mapped[i] == name[i] by {
            assert(is_harmless(name[i]));
        }
    }
    assert(text::trim_end(name) == name);
    assert(text::trim_end_of(name, '.') == name);
    lemma_free_is_not_reserved(name);
}

/// The server stores a file under its own name in the same way.
pub proof fn law_good_name_is_stored(name: Seq<char>, id: u128)
    requires
        name.len() > 0,
        text::byte_len(name) <= 255,
        forall|i: int| 0 <= i < name.len() ==> is_harmless(#[trigger] name[i]),
        !text::is_white(name[0]),
        !text::is_white(name.last()),
        name.last() != '.',
        is_free(name),
    ensures
        names::stored_name(name, id) == name,
{
    lemma_all_storable(name);
    assert(text::trim_end(name) == name);
    assert(text::trimmed(name) == name);
    assert(text::trim_end_of(name, '.') == name);
    lemma_free_is_not_reserved(name);
}

proof fn lemma_all_storable(name: Seq<char>)
    requires
        forall|i: int| 0 <= i < name.len() ==> is_harmless(#[trigger] name[i]),
    ensures
        names::storable(name) == name,
    decreases name.len(),
{
    if name.len() > 0 {
        let less = name.drop_last();
        assert forall|i: int| 0 <= i < less.len() implies is_harmless(#[trigger] less[i]) by {
            assert(less[i] == name[i]);
        }
        lemma_all_storable(less);
        assert(is_harmless(name[name.len() - 1]));
        assert(less.push(name.last()) =~= name);
    }
}

proof fn lemma_ext(stem: Seq<char>, ext: Seq<char>)
    requires
        stem.len() > 0,
        !ext.contains('.'),
    ensures
        ({
            let name = stem + "."@ + ext;
            &&& names::ext_dot(name) == stem.len()
            &&& names::stem_of(name) == stem
            &&& names::ext_of(name) == ext
            &&& names::dotted_ext(name) == "."@ + ext
        }),
{
    reveal_strlit(".");
    let name = stem + "."@ + ext;
    let n = stem.len() as int;
    text::lemma_last_at(name, '.');
    assert(name[n] == '.');
    assert(name.contains('.'));
    let i = text::last_at(name, '.');
    if i > n {
        assert(name[i] == ext[i - n - 1]);
        assert(ext.contains(name[i]));
    }
    if i < n {
        assert(name[n] != '.');
    }
    assert(name.take(n) =~= stem);
    assert(name.skip(n + 1) =~= ext);
    assert(name.skip(n) =~= "."@ + ext);
}

/// Where a name is taken, the number goes before the extension: the file stays of its kind.
pub proof fn law_number_goes_before_the_extension(stem: Seq<char>, ext: Seq<char>, i: nat)
    requires
        stem.len() > 0,
        ext.len() > 0,
        !ext.contains('.'),
        i > 0,
    ensures
        save_name::candidate(stem + "."@ + ext, i) == stem + "("@ + text::decimal(i) + ")"@ + "."@
            + ext,
        save_name::candidate(stem + "."@ + ext, 0) == stem + "."@ + ext,
{
    lemma_ext(stem, ext);
}

/// A name that is too long is cut in front of its extension, on the server as well as on the PC: the
/// file stays of its kind, and something of the name's beginning is kept on the server.
pub proof fn law_cut_name_keeps_the_extension(stem: Seq<char>, ext: Seq<char>)
    requires
        stem.len() > 0,
        0 < ext.len() <= 4,
        !ext.contains('.'),
        text::byte_len(stem + "."@ + ext) > 255,
    ensures
        ("."@ + ext).is_suffix_of(names::cut_name(stem + "."@ + ext)),
        ("."@ + ext).is_suffix_of(save_name::cut_to(stem + "."@ + ext, 255)),
        ({
            let cut = names::cut_name(stem + "."@ + ext);
            cut.take(cut.len() - ext.len() - 1).is_prefix_of(stem + "."@ + ext)
        }),
{
    reveal_strlit(".");
    let name = stem + "."@ + ext;
    let dotted = "."@ + ext;
    lemma_ext(stem, ext);
    lemma_bytes_at_most(ext);
    lemma_bytes_at_most(dotted);
    let cut = names::cut_name(name);
    let head = text::fit(name, (255 - text::byte_len(dotted)) as nat);
    text::lemma_fit(name, (255 - text::byte_len(dotted)) as nat);
    assert(cut == head + dotted);
    assert(cut.subrange(cut.len() - dotted.len(), cut.len() as int) =~= dotted);
    assert(cut.take(cut.len() - ext.len() - 1) =~= head);
    let on_pc = save_name::cut_to(name, 255);
    let front = text::fit(name, 255);
    if names::ext_of(front) == ext {
        text::lemma_last_at(front, '.');
        let i = names::ext_dot(front);
        assert(i > 0);
        assert(front.skip(i + 1) =~= ext);
        assert(front[i] == '.');
        assert(front.subrange(front.len() - dotted.len(), front.len() as int) =~= dotted);
    } else {
        assert(text::fit(ext, 16) == ext);
        let put_back = seq!['.'] + text::fit(ext, 16);
        assert(put_back =~= dotted);
        assert(on_pc.subrange(on_pc.len() - dotted.len(), on_pc.len() as int) =~= dotted);
    }
}

proof fn lemma_bytes_at_most(s: Seq<char>)
    ensures
        text::byte_len(s) <= 4 * s.len(),
    decreases s.len(),
{
    if s.len() > 0 {
        lemma_bytes_at_most(s.drop_last());
    }
}

/// Four bytes write the number, the lowest first.
pub proof fn law_four_bytes_write_the_number(v: u32)
    ensures
        dib::le32(v).len() == 4,
        dib::le32(v)[0] + 256 * dib::le32(v)[1] + 65536 * dib::le32(v)[2] + 16777216 * dib::le32(
            v,
        )[3] == v,
{
}

/// Where in its row a byte stands.
proof fn lemma_place(row: int, w: int, x: int, c: int)
    requires
        0 <= row,
        0 <= x < w,
        0 <= c < 4,
    ensures
        (4 * (row * w + x) + c) / (4 * w) == row,
        (4 * (row * w + x) + c) % (4 * w) == 4 * x + c,
{
    let k = 4 * (row * w + x) + c;
    let r = 4 * x + c;
    assert(k == row * (4 * w) + r) by (nonlinear_arith)
        requires
            k == 4 * (row * w + x) + c,
            r == 4 * x + c,
    ;
    vstd::arithmetic::div_mod::lemma_fundamental_div_mod_converse(k, 4 * w, row, r);
}

/// Every pixel of a picture stands on the clipboard where it belongs: in the row that is as far from
/// the bottom as it was from the top, with its colours in the clipboard's order, and as opaque as it
/// was.
pub proof fn law_pixel_keeps_its_place(rgba: Seq<u8>, width: u32, height: u32, x: int, y: int)
    requires
        rgba.len() == width as int * height as int * 4,
        0 <= x < width,
        0 <= y < height,
    ensures
        ({
            let out = dib::pixels(rgba, width, height);
            let to = 4 * ((height - 1 - y) * width + x);
            let from = 4 * (y * width + x);
            &&& out.len() == rgba.len()
            &&& 0 <= to && to + 3 < out.len()
            &&& out[to] == rgba[from + 2]
            &&& out[to + 1] == rgba[from + 1]
            &&& out[to + 2] == rgba[from]
            &&& out[to + 3] == rgba[from + 3]
        }),
{
    let w = width as int;
    let h = height as int;
    let row = h - 1 - y;
    let to = 4 * (row * w + x);
    let from = 4 * (y * w + x);
    assert(0 <= row * w && (row + 1) * w <= h * w && row * w + w == (row + 1) * w)
        by (nonlinear_arith)
        requires
            0 <= row < h,
            w > 0,
    ;
    assert(w * h * 4 == 4 * (h * w)) by (nonlinear_arith);
    lemma_place(row, w, x, 0);
    lemma_place(row, w, x, 1);
    lemma_place(row, w, x, 2);
    lemma_place(row, w, x, 3);
    assert((h - 1 - row) * (4 * w) == 4 * (y * w)) by (nonlinear_arith)
        requires
            row == h - 1 - y,
    ;
    assert((4 * x) % 4 == 0 && (4 * x + 1) % 4 == 1 && (4 * x + 2) % 4 == 2 && (4 * x + 3) % 4 == 3);
}

/// The header of a picture on the clipboard names its width and its height, and counts its bytes.
pub proof fn law_header_names_the_size(width: u32, height: u32, image_size: u32)
    ensures
        ({
            let h = dib::header(width, height, image_size);
            &&& h.len() == 124
            &&& h.subrange(4, 8) == dib::le32(width)
            &&& h.subrange(8, 12) == dib::le32(height)
            &&& h.subrange(20, 24) == dib::le32(image_size)
        }),
{
    let h = dib::header(width, height, image_size);
    dib::law_header_size(width, height, image_size);
    assert(h.subrange(4, 8) =~= dib::le32(width));
    assert(h.subrange(8, 12) =~= dib::le32(height));
    assert(h.subrange(20, 24) =~= dib::le32(image_size));
}

/// Whatever a file is called, the name that it is saved under is harmless; and the name that the server
/// stores it under holds no control character, no quote and no separator of paths.
pub proof fn law_every_name_is_made_harmless(base: Seq<char>, id: u128, i: int)
    ensures
        0 <= i < save_name::saved_name(base).len() ==> is_harmless(save_name::saved_name(base)[i]),
        0 <= i < names::stored_name(base, id).len() ==> {
            let c = names::stored_name(base, id)[i];
            c as u32 > 0x1f && !(0x7f <= c as u32 <= 0x9f) && c != '"' && c != '\\' && c != '/'
        },
{
    save_name::law_saved_name_is_clean(base);
    if 0 <= i < save_name::saved_name(base).len() {
        assert(!save_name::is_forbidden(save_name::saved_name(base)[i]));
    }
    if 0 <= i < names::stored_name(base, id).len() {
        names::law_stored_name_is_storable(base, id, i);
    }
}

/// Is this one of the names that a system reserves for its devices, in whatever letters?
pub open spec fn is_device(name: Seq<char>) -> bool {
    let s = text::lower(name);
    ||| s == seq!['c', 'o', 'n']
    ||| s == seq!['p', 'r', 'n']
    ||| s == seq!['a', 'u', 'x']
    ||| s == seq!['n', 'u', 'l']
    ||| s.len() == 4 && '1' <= s[3] <= '9' && (s.take(3) == seq!['c', 'o', 'm'] || s.take(3)
        == seq!['l', 'p', 't'])
}

/// A file is saved, and stored, under no name that a system reserves for its devices: such a name gets an
/// underscore before it.
pub proof fn law_device_names_are_marked(name: Seq<char>, id: u128)
    requires
        is_device(name),
    ensures
        save_name::saved_name(name) == seq!['_'] + name,
        names::stored_name(name, id) == seq!['_'] + name,
{
    reveal_strlit("con");
    reveal_strlit("prn");
    reveal_strlit("aux");
    reveal_strlit("nul");
    reveal_strlit("com");
    reveal_strlit("lpt");
    let s = text::lower(name);
    assert(s.len() == name.len());
    assert(seq!['c', 'o', 'n'] =~= "con"@);
    assert(seq!['p', 'r', 'n'] =~= "prn"@);
    assert(seq!['a', 'u', 'x'] =~= "aux"@);
    assert(seq!['n', 'u', 'l'] =~= "nul"@);
    assert(seq!['c', 'o', 'm'] =~= "com"@);
    assert(seq!['l', 'p', 't'] =~= "lpt"@);
    if s.len() == 4 {
        assert(s.take(3) =~= s.subrange(0, 3));
        assert(s.take(3)[0] == s[0] && s.take(3)[1] == s[1] && s.take(3)[2] == s[2]);
    }
    assert forall|i: int| 0 <= i < name.len() implies is_harmless(#[trigger] name[i])
        && !text::is_white(name[i]) && name[i] != '.' by {
        assert(s[i] == text::lower_char(name[i]));
        assert('a' <= s[i] <= 'z' || '1' <= s[i] <= '9');
    }
    assert(!name.contains('.'));
    text::lemma_last_at(name, '.');
    assert(names::stem_of(name) == name);
    assert(names::is_reserved(name));
    let mapped = name.map_values(|c: char| save_name::allowed(c));
    assert(mapped =~= name) by {
        assert forall|i: int| 0 <= i < name.len() implies mapped[i] == name[i] by {
            assert(is_harmless(name[i]));
        }
    }
    assert(!text::is_white(name[name.len() - 1]) && !text::is_white(name[0]));
    assert(name[name.len() - 1] != '.');
    assert(text::trim_end(name) == name);
    assert(text::trim_end_of(name, '.') == name);
    lemma_all_storable(name);
    assert(text::trimmed(name) == name);
    lemma_bytes_at_most(seq!['_'] + name);
}

} // verus!
