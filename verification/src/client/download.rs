//! The bytes of a file as they reach the PC, and whether they are the ones that were sent.

use crate::digest;
use crate::digest::{hex_encode, Hasher};
use crate::events::FileReceived;
use crate::server::pairing;
use crate::server::upload;
use crate::text;
use crate::text::{
    chars_of, concat, concat3, eq_chars, push_chars, push_decimal, string_of, trim_end_char,
};
use vstd::prelude::*;

verus! {

/// The bytes of a digest.
pub const DIGEST_BYTES: usize = 32;

/// Why a download failed, in words for the user.
#[derive(Debug)]
pub enum DownloadError {
    /// It may be tried again.
    Transient(String),
    /// It may not.
    Terminal(String),
}

/// Why a download failed, for contracts.
pub enum DownloadErrorView {
    Transient(Seq<char>),
    Terminal(Seq<char>),
}

impl View for DownloadError {
    type V = DownloadErrorView;

    open spec fn view(&self) -> DownloadErrorView {
        match self {
            DownloadError::Transient(message) => DownloadErrorView::Transient(message@),
            DownloadError::Terminal(message) => DownloadErrorView::Terminal(message@),
        }
    }
}

/// What a bearer shows to be given a file: the file's secret in hexadecimal.
pub fn file_bearer(event: &FileReceived) -> (r: String)
    ensures
        r@ == pairing::hex_of(event@.file_access_token),
{
    hex_encode(&event.file_access_token)
}

/// Where the receipt of a file is reported, if anywhere.
pub open spec fn ack_address(base: Option<Seq<char>>, file_id: Seq<char>) -> Option<Seq<char>> {
    match base {
        Some(base) => Some(
            text::trim_end_of(base, '/') + "/api/files/"@ + file_id + "/ack"@,
        ),
        None => None,
    }
}

/// Where the receipt of a file is reported, and the bearer's secret.
pub fn send_ack(event: &FileReceived, base_url: &Option<String>) -> (r: Option<(String, String)>)
    ensures
        match r {
            Some((url, bearer)) => {
                &&& ack_address(text::opt_chars(*base_url), event@.file_id) == Some(url@)
                &&& bearer@ == pairing::hex_of(event@.file_access_token)
            },
            None => base_url is None,
        },
{
    match base_url {
        Some(base) => {
            let all = chars_of(base);
            let mut url = string_of(trim_end_char(&all, '/'));
            push_chars(&mut url, &chars_of("/api/files/"));
            push_chars(&mut url, &chars_of(&event.file_id));
            push_chars(&mut url, &chars_of("/ack"));
            Some((url, file_bearer(event)))
        },
        None => None,
    }
}

/// What the status of a reply means for a download: an error that may not be tried again, one that
/// may, or none.
pub open spec fn status_error(status: u16, status_text: Seq<char>) -> Option<DownloadErrorView> {
    let message = "⚠ 文件下载失败：HTTP "@ + status_text;
    if status == 404 || status == 401 {
        Some(DownloadErrorView::Terminal(message))
    } else if !(200 <= status < 300) {
        Some(DownloadErrorView::Transient(message))
    } else {
        None
    }
}

/// What the status of a reply means for a download.
pub fn check_download_status(status: u16, status_text: &str) -> (r: Result<(), DownloadError>)
    ensures
        match r {
            Ok(()) => status_error(status, status_text@) is None,
            Err(e) => status_error(status, status_text@) == Some(e@),
        },
{
    if status == 404 || status == 401 {
        return Err(DownloadError::Terminal(concat("⚠ 文件下载失败：HTTP ", status_text)));
    }
    if !(200 <= status && status < 300) {
        return Err(DownloadError::Transient(concat("⚠ 文件下载失败：HTTP ", status_text)));
    }
    Ok(())
}

/// The digest that a download must have: the one that was announced with the file, or, where none
/// could be announced since the file was still coming in, the one that the reply names.
pub open spec fn digest_to_have(announced: Seq<char>, named: Option<Seq<char>>) -> Seq<char> {
    if announced.len() > 0 {
        announced
    } else {
        match named {
            Some(digest) => digest,
            None => Seq::empty(),
        }
    }
}

/// The digest that a download must have.
pub fn expected_digest(announced: &str, named: Option<&str>) -> (r: String)
    ensures
        r@ == digest_to_have(
            announced@,
            match named {
                Some(digest) => Some(digest@),
                None => None,
            },
        ),
{
    let digest = chars_of(announced);
    if digest.len() > 0 {
        return string_of(&digest);
    }
    match named {
        Some(digest) => string_of(&chars_of(digest)),
        None => {
            let none = String::new();
            assert(none@ =~= Seq::empty());
            none
        },
    }
}

/// A file's bytes as they come in.
pub struct Received {
    hasher: Hasher,
    total: u64,
}

impl View for Received {
    type V = Seq<u8>;

    closed spec fn view(&self) -> Seq<u8> {
        self.hasher@
    }
}

/// One message of a file stream.
#[derive(Debug)]
pub struct FileChunk {
    /// More bytes.
    pub data: Vec<u8>,
    /// The digest of all bytes, in the last message.
    pub sha256: Vec<u8>,
    /// Is this the last message?
    pub is_last: bool,
}

/// What comes over a file stream.
#[derive(Debug)]
pub enum StreamInput<'a> {
    /// A message.
    Chunk(&'a FileChunk),
    /// The end, before the last message.
    Closed,
    /// A failure, with its code and message.
    Failed { code: String, message: String },
}

/// What is to be done after something came over a file stream.
pub enum StreamStep {
    /// The message's bytes are to be written, and more is to be read.
    Write(Received),
    /// All is there: so many bytes.
    Finished(u64),
    /// It went wrong.
    Failed(String),
}

/// Why a stream failed.
pub open spec fn stream_error(input: StreamInput, bytes: Seq<u8>, file_name: Seq<char>) -> Option<
    Seq<char>,
> {
    match input {
        StreamInput::Closed => Some("⚠ gRPC 流提前关闭，未收到终止帧："@ + file_name),
        StreamInput::Failed { code, message } => Some(
            "⚠ gRPC 流错误："@ + code@ + " "@ + message@,
        ),
        StreamInput::Chunk(chunk) => if chunk.is_last {
            if chunk.sha256@ != digest::sha256_of(bytes) {
                Some("⚠ 文件 "@ + file_name + " sha256 mismatch，已丢弃"@)
            } else {
                None
            }
        } else if bytes.len() + chunk.data@.len() > u64::MAX {
            Some("⚠ gRPC 流文件大小溢出"@)
        } else {
            None
        },
    }
}

/// Are the bytes the same?
fn equal_bytes(a: &[u8], b: &[u8]) -> (r: bool)
    ensures
        r == (a@ == b@),
{
    if a.len() != b.len() {
        return false;
    }
    for i in 0..a.len()
        invariant
            a@.len() == b@.len(),
            a@.take(i as int) == b@.take(i as int),
    {
        if a[i] != b[i] {
            assert(a@[i as int] != b@[i as int]);
            return false;
        }
        assert(a@.take(i as int + 1) =~= a@.take(i as int).push(a@[i as int]));
        assert(b@.take(i as int + 1) =~= b@.take(i as int).push(b@[i as int]));
    }
    assert(a@.take(a@.len() as int) =~= a@);
    assert(b@.take(b@.len() as int) =~= b@);
    true
}

impl Received {
    /// The count is right.
    #[verifier::type_invariant]
    closed spec fn counted(self) -> bool {
        self.total == self.hasher@.len()
    }

    /// Nothing yet.
    pub fn new() -> (r: Received)
        ensures
            r@ == Seq::<u8>::empty(),
    {
        Received { hasher: Hasher::start(), total: 0 }
    }

    /// More bytes; nothing is left where there are too many to count.
    pub fn add(self, data: &[u8]) -> (r: Option<Received>)
        ensures
            match r {
                Some(more) => {
                    &&& self@.len() + data@.len() <= u64::MAX
                    &&& more@ == self@ + data@
                },
                None => self@.len() + data@.len() > u64::MAX,
            },
    {
        proof {
            use_type_invariant(&self);
        }
        let Received { hasher, total } = self;
        let mut hasher = hasher;
        hasher.feed(data);
        match total.checked_add(data.len() as u64) {
            Some(total) => Some(Received { hasher, total }),
            None => None,
        }
    }

    /// Something came over a file stream.
    pub fn on_stream(self, input: StreamInput, file_name: &str) -> (r: StreamStep)
        ensures
            match r {
                StreamStep::Failed(e) => stream_error(input, self@, file_name@) == Some(e@),
                StreamStep::Finished(total) => {
                    &&& stream_error(input, self@, file_name@) is None
                    &&& input matches StreamInput::Chunk(chunk) && chunk.is_last
                    &&& total == self@.len()
                },
                StreamStep::Write(more) => {
                    &&& stream_error(input, self@, file_name@) is None
                    &&& input matches StreamInput::Chunk(chunk) && !chunk.is_last && more@
                        == self@ + chunk.data@
                },
            },
    {
        proof {
            use_type_invariant(&self);
        }
        match input {
            StreamInput::Closed => StreamStep::Failed(
                concat("⚠ gRPC 流提前关闭，未收到终止帧：", file_name),
            ),
            StreamInput::Failed { code, message } => {
                let head = concat3("⚠ gRPC 流错误：", &code, " ");
                StreamStep::Failed(concat(&head, &message))
            },
            StreamInput::Chunk(chunk) => {
                if chunk.is_last {
                    let Received { hasher, total } = self;
                    let computed = hasher.finish();
                    if !equal_bytes(&chunk.sha256, computed.as_slice()) {
                        return StreamStep::Failed(
                            concat3("⚠ 文件 ", file_name, " sha256 mismatch，已丢弃"),
                        );
                    }
                    return StreamStep::Finished(total);
                }
                match self.add(&chunk.data) {
                    Some(more) => StreamStep::Write(more),
                    None => StreamStep::Failed(string_of(&chars_of("⚠ gRPC 流文件大小溢出"))),
                }
            },
        }
    }

    /// One read of a plain download.
    pub fn on_read(self, data: &[u8]) -> (r: Result<Received, DownloadError>)
        ensures
            match r {
                Ok(more) => {
                    &&& self@.len() + data@.len() <= u64::MAX
                    &&& more@ == self@ + data@
                },
                Err(e) => {
                    &&& self@.len() + data@.len() > u64::MAX
                    &&& e@ == DownloadErrorView::Terminal(
                        "⚠ 文件下载失败：文件大小超出可处理范围"@,
                    )
                },
            },
    {
        match self.add(data) {
            Some(more) => Ok(more),
            None => Err(
                DownloadError::Terminal(
                    string_of(&chars_of("⚠ 文件下载失败：文件大小超出可处理范围")),
                ),
            ),
        }
    }

    /// A plain download has ended. Its bytes must have the digest that was announced.
    pub fn finish_download(self, expected_sha256: &str, file_name: &str) -> (r: Result<
        u64,
        DownloadError,
    >)
        ensures
            match r {
                Ok(total) => {
                    &&& total == self@.len()
                    &&& expected_sha256@ == pairing::hex_of(digest::sha256_of(self@))
                },
                Err(e) => {
                    &&& expected_sha256@ != pairing::hex_of(digest::sha256_of(self@))
                    &&& e@ == DownloadErrorView::Terminal(
                        "⚠ 文件 "@ + file_name@ + " 校验失败，已丢弃"@,
                    )
                },
            },
    {
        proof {
            use_type_invariant(&self);
        }
        let Received { hasher, total } = self;
        let computed = hex_encode(hasher.finish().as_slice());
        if !eq_chars(&chars_of(&computed), &chars_of(expected_sha256)) {
            return Err(
                DownloadError::Terminal(concat3("⚠ 文件 ", file_name, " 校验失败，已丢弃")),
            );
        }
        Ok(total)
    }
}

/// The file's part of a body: all but the digest at its end.
pub open spec fn file_part(body: Seq<u8>) -> Seq<u8> {
    if body.len() <= DIGEST_BYTES {
        Seq::empty()
    } else {
        body.take(body.len() - DIGEST_BYTES)
    }
}

/// The end of a body, where the digest stands.
pub open spec fn digest_part(body: Seq<u8>) -> Seq<u8> {
    body.skip(file_part(body).len() as int)
}

/// Is this the body of a whole file: its bytes, and then their digest?
pub open spec fn is_whole(body: Seq<u8>) -> bool {
    &&& digest_part(body).len() == DIGEST_BYTES
    &&& digest_part(body) == digest::sha256_of(file_part(body))
}

/// The body of a streamed file as it comes in. Its end is held back, since it is no part of the file.
pub struct StreamBody {
    hasher: Hasher,
    total: u64,
    tail: Vec<u8>,
}

impl View for StreamBody {
    type V = Seq<u8>;

    closed spec fn view(&self) -> Seq<u8> {
        self.hasher@ + self.tail@
    }
}

impl StreamBody {
    /// The end is held back, no more and no less, and the count is right.
    #[verifier::type_invariant]
    closed spec fn held_back(self) -> bool {
        &&& self.tail@.len() <= DIGEST_BYTES
        &&& self.hasher@.len() > 0 ==> self.tail@.len() == DIGEST_BYTES
        &&& self.total == self.hasher@.len()
    }

    /// Nothing yet.
    pub fn new() -> (r: StreamBody)
        ensures
            r@ == Seq::<u8>::empty(),
    {
        let r = StreamBody { hasher: Hasher::start(), total: 0, tail: Vec::new() };
        assert(r@ =~= Seq::empty());
        r
    }

    /// One read of the body, and which bytes are now to be written to the file.
    pub fn on_read(self, incoming: &[u8]) -> (r: Result<(StreamBody, Vec<u8>), String>)
        ensures
            match r {
                Ok((more, write)) => {
                    &&& file_part(self@ + incoming@).len() <= u64::MAX
                    &&& more@ == self@ + incoming@
                    &&& file_part(more@) == file_part(self@) + write@
                },
                Err(e) => {
                    &&& file_part(self@ + incoming@).len() > u64::MAX
                    &&& e@ == "⚠ HTTP 流式下载：文件大小溢出"@
                },
            },
    {
        proof {
            use_type_invariant(&self);
        }
        let ghost before = self@;
        let StreamBody { hasher, total, tail } = self;
        let mut hasher = hasher;
        let ghost fed = hasher@;
        assert(before =~= fed + tail@);
        assert(file_part(before) =~= fed);
        let mut combined = tail;
        let ghost tail0 = combined@;
        let mut i: usize = 0;
        while i < incoming.len()
            invariant
                i <= incoming@.len(),
                combined@ == tail0 + incoming@.take(i as int),
            decreases incoming@.len() - i,
        {
            combined.push(incoming[i]);
            i = i + 1;
            assert(combined@ =~= tail0 + incoming@.take(i as int));
        }
        assert(incoming@.take(incoming@.len() as int) =~= incoming@);
        assert(before + incoming@ =~= fed + combined@);
        if combined.len() <= DIGEST_BYTES {
            proof {
                if fed.len() > 0 {
                    assert(incoming@.len() == 0);
                }
                assert(hasher@ + combined@ =~= before + incoming@);
            }
            let write: Vec<u8> = Vec::new();
            assert(file_part(before + incoming@) =~= fed + write@);
            return Ok((StreamBody { hasher, total, tail: combined }, write));
        }
        let count: usize = combined.len() - DIGEST_BYTES;
        let write = vstd::slice::slice_to_vec(
            vstd::slice::slice_subrange(combined.as_slice(), 0, count),
        );
        let rest = vstd::slice::slice_to_vec(
            vstd::slice::slice_subrange(combined.as_slice(), count, combined.len()),
        );
        assert(file_part(before + incoming@) =~= fed + write@);
        hasher.feed(&write);
        match total.checked_add(write.len() as u64) {
            Some(total) => {
                let more = StreamBody { hasher, total, tail: rest };
                assert(more@ =~= before + incoming@);
                Ok((more, write))
            },
            None => Err(string_of(&chars_of("⚠ HTTP 流式下载：文件大小溢出"))),
        }
    }

    /// The body has ended: how many bytes the file has, where it is a whole one.
    pub fn finish(self, file_name: &str) -> (r: Result<u64, String>)
        ensures
            match r {
                Ok(total) => is_whole(self@) && total == file_part(self@).len(),
                Err(e) => !is_whole(self@) && e@ == (if digest_part(self@).len() != DIGEST_BYTES {
                    "⚠ HTTP 流式下载：响应体长度不足，预期末尾 32 字节 SHA-256，实际残余 "@
                        + text::decimal(digest_part(self@).len()) + " 字节（文件 "@ + file_name@
                        + "）"@
                } else {
                    "⚠ HTTP 流式下载：文件 "@ + file_name@ + " SHA-256 校验失败，已丢弃"@
                }),
            },
    {
        proof {
            use_type_invariant(&self);
        }
        let ghost all = self@;
        let StreamBody { hasher, total, tail } = self;
        assert(all =~= hasher@ + tail@);
        assert(file_part(all) =~= hasher@);
        assert(digest_part(all) =~= tail@);
        if tail.len() != DIGEST_BYTES {
            let mut e = string_of(
                &chars_of(
                    "⚠ HTTP 流式下载：响应体长度不足，预期末尾 32 字节 SHA-256，实际残余 ",
                ),
            );
            push_decimal(&mut e, tail.len() as u64);
            push_chars(&mut e, &chars_of(" 字节（文件 "));
            push_chars(&mut e, &chars_of(file_name));
            push_chars(&mut e, &chars_of("）"));
            return Err(e);
        }
        let computed = hasher.finish();
        if !equal_bytes(computed.as_slice(), &tail) {
            return Err(
                concat3("⚠ HTTP 流式下载：文件 ", file_name, " SHA-256 校验失败，已丢弃"),
            );
        }
        Ok(total)
    }
}

/// What the PC takes from the server's body of a whole file is the file, however the server cut it
/// into chunks.
pub proof fn law_streamed_file_arrives(
    items: Seq<crate::server::upload_store::StreamItem>,
    chunks: Seq<Seq<u8>>,
    sha256: [u8; 32],
)
    requires
        items.len() == chunks.len() + 1,
        forall|i: int|
            0 <= i < chunks.len() ==> (#[trigger] items[i] matches
                crate::server::upload_store::StreamItem::Data(b) && b@ == chunks[i]),
        items.last() == (crate::server::upload_store::StreamItem::End { sha256 }),
        sha256@ == digest::sha256_of(upload::joined_chunks(chunks)),
    ensures
        is_whole(upload::stream_body(items)),
        file_part(upload::stream_body(items)) == upload::joined_chunks(chunks),
{
    upload::law_stream_body(items, chunks, sha256);
    let body = upload::stream_body(items);
    assert(file_part(body) =~= upload::joined_chunks(chunks));
    assert(digest_part(body) =~= sha256@);
}

/// A body that is too short to hold a digest is no file.
pub proof fn law_short_body_is_refused(body: Seq<u8>)
    requires
        body.len() < DIGEST_BYTES,
    ensures
        !is_whole(body),
{
}

/// The address that a reply sends the PC on to.
#[derive(Debug)]
pub enum Location {
    /// It names none.
    Absent,
    /// It is no text.
    Unreadable,
    /// The address.
    Url(String),
}

/// A hexadecimal digit, small or capital.
pub open spec fn is_any_hex(c: char) -> bool {
    '0' <= c <= '9' || 'a' <= c <= 'f' || 'A' <= c <= 'F'
}

/// The form of a digest: sixty-four hexadecimal digits.
pub open spec fn is_digest_text(s: Seq<char>) -> bool {
    s.len() == 64 && forall|i: int| 0 <= i < s.len() ==> is_any_hex(#[trigger] s[i])
}

/// Has the text the form of a digest?
fn digest_text(cs: &[char]) -> (r: bool)
    ensures
        r == is_digest_text(cs@),
{
    if cs.len() != 64 {
        return false;
    }
    for i in 0..cs.len()
        invariant
            forall|j: int| 0 <= j < i ==> is_any_hex(#[trigger] cs@[j]),
    {
        let c = cs[i];
        if !('0' <= c && c <= '9' || 'a' <= c && c <= 'f' || 'A' <= c && c <= 'F') {
            assert(!is_any_hex(cs@[i as int]));
            return false;
        }
    }
    true
}

/// What a reply to a request for a stream leads to.
#[derive(Debug)]
pub enum StreamReply {
    /// The body is the file, with its digest at its end.
    Body,
    /// The file is stored: it is to be downloaded there, and has that digest.
    Elsewhere { url: String, sha256: String },
    /// It went wrong.
    Failed(String),
}

/// What a reply leads to, for contracts.
pub enum StreamReplyView {
    Body,
    Elsewhere { url: Seq<char>, sha256: Seq<char> },
    Failed(Seq<char>),
}

impl View for StreamReply {
    type V = StreamReplyView;

    open spec fn view(&self) -> StreamReplyView {
        match self {
            StreamReply::Body => StreamReplyView::Body,
            StreamReply::Elsewhere { url, sha256 } => StreamReplyView::Elsewhere {
                url: url@,
                sha256: sha256@,
            },
            StreamReply::Failed(message) => StreamReplyView::Failed(message@),
        }
    }
}

/// What a reply to a request for a stream leads to.
pub open spec fn stream_reply(
    status: u16,
    status_text: Seq<char>,
    sha256: Option<Seq<char>>,
    location: Location,
) -> StreamReplyView {
    if status == 302 {
        if !(sha256 matches Some(s) && is_digest_text(s)) {
            StreamReplyView::Failed("⚠ HTTP 流式下载：302 响应缺少有效的 X-File-Sha256 头"@)
        } else {
            match location {
                Location::Absent => StreamReplyView::Failed(
                    "⚠ HTTP 流式下载：302 但无 Location 头"@,
                ),
                Location::Unreadable => StreamReplyView::Failed(
                    "⚠ HTTP 流式下载：302 Location 头无效"@,
                ),
                Location::Url(url) => StreamReplyView::Elsewhere {
                    url: url@,
                    sha256: sha256->0,
                },
            }
        }
    } else if !(200 <= status < 300) {
        StreamReplyView::Failed("⚠ HTTP 流式下载失败：HTTP "@ + status_text)
    } else {
        StreamReplyView::Body
    }
}

/// What a reply to a request for a stream leads to.
pub fn check_stream_reply(
    status: u16,
    status_text: &str,
    sha256: Option<String>,
    location: Location,
) -> (r: StreamReply)
    ensures
        r@ == stream_reply(status, status_text@, text::opt_chars(sha256), location),
{
    if status == 302 {
        let sha256 = match sha256 {
            Some(s) => s,
            None => {
                return StreamReply::Failed(
                    string_of(&chars_of("⚠ HTTP 流式下载：302 响应缺少有效的 X-File-Sha256 头")),
                );
            },
        };
        if !digest_text(&chars_of(&sha256)) {
            return StreamReply::Failed(
                string_of(&chars_of("⚠ HTTP 流式下载：302 响应缺少有效的 X-File-Sha256 头")),
            );
        }
        return match location {
            Location::Absent => StreamReply::Failed(
                string_of(&chars_of("⚠ HTTP 流式下载：302 但无 Location 头")),
            ),
            Location::Unreadable => StreamReply::Failed(
                string_of(&chars_of("⚠ HTTP 流式下载：302 Location 头无效")),
            ),
            Location::Url(url) => StreamReply::Elsewhere { url, sha256 },
        };
    }
    if !(200 <= status && status < 300) {
        return StreamReply::Failed(concat("⚠ HTTP 流式下载失败：HTTP ", status_text));
    }
    StreamReply::Body
}

} // verus!
