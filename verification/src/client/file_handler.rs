//! What the PC does with a file that it is told of: how it is fetched, what is tried again, what
//! becomes of pictures, and what is reported.

use crate::client::clipboard;
use crate::client::clipboard::{press_after_paste, Key};
use crate::client::dib::estimate_decoded_rgba_bytes;
use crate::client::download::{DownloadError, DownloadErrorView};
use crate::client::save_name::sanitize_file_name_for_save;
use crate::events::{FileReceived, TransferMode};
use crate::text;
use crate::text::{
    chars_of, concat, concat3, decimal_string, push_chars, strip_prefix,
};
use vstd::prelude::*;

verus! {

/// A file to be fetched.
#[derive(Debug)]
pub struct FileJob {
    /// What the server told of it.
    pub event: FileReceived,
    /// Where it is saved.
    pub file_save_dir: String,
    /// Seconds that a request may take.
    pub download_timeout_secs: u64,
    /// How often a download is tried again.
    pub download_max_retries: u32,
    /// Where its receipt is reported.
    pub public_base_url: Option<String>,
    /// Are pictures pasted?
    pub auto_paste: bool,
    /// Its media type.
    pub mime_type: String,
    /// How many bytes a picture may take once it is decoded.
    pub image_clipboard_max_decoded_bytes: u64,
    /// The keys pressed after pasting.
    pub simulate_key_after_paste: Option<String>,
    /// Is return pressed after pasting?
    pub enter_after_paste: bool,
    /// Milliseconds before pasting.
    pub paste_delay_ms: u64,
    /// Milliseconds before the keys after pasting.
    pub key_after_paste_delay_ms: u64,
    /// Is there a connection to stream over?
    pub has_channel: bool,
    /// Can this system's clipboard take pictures?
    pub pastes_images: bool,
}

impl FileJob {
    /// Is this a picture to be pasted?
    pub open spec fn is_paste(self) -> bool {
        self.pastes_images && self.auto_paste && "image/"@.is_prefix_of(self.mime_type@)
    }

    /// How often a download is tried at most.
    pub open spec fn max_attempts(self) -> int {
        if self.download_max_retries == u32::MAX {
            u32::MAX as int
        } else {
            self.download_max_retries + 1
        }
    }

    /// Seconds that a request may take, one at least.
    pub fn timeout_secs(&self) -> (r: u64)
        ensures
            r == (if self.download_timeout_secs == 0 {
                1
            } else {
                self.download_timeout_secs
            }),
    {
        if self.download_timeout_secs == 0 {
            1
        } else {
            self.download_timeout_secs
        }
    }

    /// Is this a picture to be pasted?
    fn pastes(&self) -> (r: bool)
        ensures
            r == self.is_paste(),
    {
        self.pastes_images && self.auto_paste && strip_prefix(
            &chars_of(&self.mime_type),
            "image/",
        ).is_some()
    }
}

/// How many threads fetch files: one at least.
pub fn start_file_workers(num_workers: usize) -> (r: usize)
    ensures
        r == (if num_workers == 0 {
            1
        } else {
            num_workers
        }),
{
    if num_workers == 0 {
        1
    } else {
        num_workers
    }
}

/// How a file is being fetched.
#[derive(Debug, Clone, Copy, PartialEq, Eq, Structural)]
pub enum Way {
    /// As a stream over HTTP.
    HttpStream,
    /// As a stream over the event connection.
    GrpcStream,
    /// As a plain download, in the attempt of that number.
    Plain(u32),
}

/// Where the fetching of a file stands.
#[derive(Debug, Clone, Copy, PartialEq, Eq, Structural)]
pub enum JobStage {
    /// Requests are being prepared.
    Preparing,
    /// The directory is being made.
    MakingDir,
    /// The bytes are coming in.
    Fetching(Way),
    /// It is being found out how large a picture is.
    Probing(Way),
    /// A picture is being put on the clipboard.
    Copying(Way),
    /// The keys that paste a picture are being pressed.
    Pasting,
    /// The file is being moved to its place.
    Saving(Way),
    /// A moment passes before the attempt of that number.
    Waiting(u32),
    /// It is over.
    Over,
}

/// What came of the last action.
#[derive(Debug)]
pub enum JobEvent {
    /// It worked: requests can be made, the directory is there, the bytes are there, the picture is
    /// on the clipboard, the keys are pressed, the moment has passed.
    Done,
    /// It did not work, for this reason.
    Failed(String),
    /// The bytes could not be fetched, or not be saved.
    Error(DownloadError),
    /// How wide and high the picture is, if it is one.
    Size(Option<(u32, u32)>),
    /// The file was saved under this name.
    Saved(String),
}

/// What is to be done next.
#[derive(Debug)]
pub enum JobAction {
    /// The directory is to be made.
    MakeDir,
    /// The bytes are to be fetched, in this way.
    Fetch(Way),
    /// It is to be found out how large the picture is.
    Probe,
    /// The picture is to be decoded and put on the clipboard.
    Copy,
    /// The keys that paste are to be pressed, and these after them, in order.
    Paste(Vec<(Option<Key>, Key)>),
    /// The file is to be moved to its place.
    Save,
    /// A second is to pass.
    Wait,
    /// Nothing more: what the server is told, if anything, and what the user is told.
    Finish { ack: Option<bool>, notice: String },
}

/// What is to be done next, for contracts.
pub enum JobActionView {
    MakeDir,
    Fetch(Way),
    Probe,
    Copy,
    Paste(Seq<(Option<Key>, Key)>),
    Save,
    Wait,
    Finish { ack: Option<bool>, notice: Seq<char> },
}

impl View for JobAction {
    type V = JobActionView;

    open spec fn view(&self) -> JobActionView {
        match self {
            JobAction::MakeDir => JobActionView::MakeDir,
            JobAction::Fetch(way) => JobActionView::Fetch(*way),
            JobAction::Probe => JobActionView::Probe,
            JobAction::Copy => JobActionView::Copy,
            JobAction::Paste(keys) => JobActionView::Paste(keys@),
            JobAction::Save => JobActionView::Save,
            JobAction::Wait => JobActionView::Wait,
            JobAction::Finish { ack, notice } => JobActionView::Finish {
                ack: *ack,
                notice: notice@,
            },
        }
    }
}

/// The way that a file is fetched in first.
pub open spec fn first_way(job: FileJob) -> Way {
    match job.event.transfer_mode {
        TransferMode::HttpStreaming => Way::HttpStream,
        TransferMode::Streaming => if job.has_channel {
            Way::GrpcStream
        } else {
            Way::Plain(1)
        },
        TransferMode::Relay => Way::Plain(1),
    }
}

/// It is over: what the server and the user are told.
pub open spec fn over(ack: bool, notice: Seq<char>) -> (JobStage, JobActionView) {
    (JobStage::Over, JobActionView::Finish { ack: Some(ack), notice })
}

/// An error in fetching or saving. Only a plain download is tried again, as long as the error may
/// pass and there are attempts left.
pub open spec fn after_error(job: FileJob, way: Way, error: DownloadErrorView) -> (
    JobStage,
    JobActionView,
) {
    match (way, error) {
        (Way::Plain(attempt), DownloadErrorView::Transient(message)) => if attempt
            < job.max_attempts() {
            (JobStage::Waiting((attempt + 1) as u32), JobActionView::Wait)
        } else {
            over(
                false,
                "⚠ 文件下载失败（已重试 "@ + text::decimal((job.max_attempts() - 1) as nat)
                    + " 次）："@ + message,
            )
        },
        (_, DownloadErrorView::Transient(message)) => over(false, message),
        (_, DownloadErrorView::Terminal(message)) => over(false, message),
    }
}

/// The notice of a picture that was pasted.
pub open spec fn paste_notice(job: FileJob, file_name: Seq<char>) -> Seq<char> {
    match job.simulate_key_after_paste {
        Some(keys) => "已自动粘贴图片（"@ + keys@ + "）："@ + file_name,
        None => "已自动粘贴图片："@ + file_name,
    }
}

/// The keys that are pressed after a picture was pasted, in order.
pub open spec fn keys_after(job: FileJob) -> Seq<(Option<Key>, Key)> {
    clipboard::keys_after_paste(
        text::opt_chars(job.simulate_key_after_paste),
        job.enter_after_paste,
    )
}

/// Is a picture of that size put on the clipboard? Not where it would take too much once decoded.
pub open spec fn is_copied(job: FileJob, size: Option<(u32, u32)>) -> bool {
    match size {
        Some((w, h)) => w as int * h as int * 4 <= job.image_clipboard_max_decoded_bytes,
        None => false,
    }
}

/// Where the fetching stands after something came of the last action, and what is to be done next.
/// What cannot come of it ends the job without a word to the server.
pub open spec fn job_step(job: FileJob, file_name: Seq<char>, stage: JobStage, event: JobEvent) -> (
    JobStage,
    JobActionView,
) {
    match (stage, event) {
        (JobStage::Preparing, JobEvent::Done) => (JobStage::MakingDir, JobActionView::MakeDir),
        (JobStage::Preparing, JobEvent::Failed(why)) => (
            JobStage::Over,
            JobActionView::Finish {
                ack: None,
                notice: "⚠ 文件下载失败（构建 HTTP 客户端）："@ + why@,
            },
        ),
        (JobStage::MakingDir, JobEvent::Done) => (
            JobStage::Fetching(first_way(job)),
            JobActionView::Fetch(first_way(job)),
        ),
        (JobStage::MakingDir, JobEvent::Failed(why)) => over(
            false,
            "⚠ 无法创建保存目录 "@ + job.file_save_dir@ + "："@ + why@,
        ),
        (JobStage::Fetching(way), JobEvent::Done) => if job.is_paste() {
            (JobStage::Probing(way), JobActionView::Probe)
        } else {
            (JobStage::Saving(way), JobActionView::Save)
        },
        (JobStage::Fetching(way), JobEvent::Error(e)) => after_error(job, way, e@),
        (JobStage::Probing(way), JobEvent::Size(size)) => if is_copied(job, size) {
            (JobStage::Copying(way), JobActionView::Copy)
        } else {
            (JobStage::Saving(way), JobActionView::Save)
        },
        (JobStage::Copying(way), JobEvent::Failed(_)) => (
            JobStage::Saving(way),
            JobActionView::Save,
        ),
        (JobStage::Copying(_), JobEvent::Done) => (
            JobStage::Pasting,
            JobActionView::Paste(keys_after(job)),
        ),
        (JobStage::Pasting, JobEvent::Done) => over(true, paste_notice(job, file_name)),
        (JobStage::Saving(_), JobEvent::Saved(name)) => over(true, "已保存文件："@ + name@),
        (JobStage::Saving(way), JobEvent::Error(e)) => after_error(job, way, e@),
        (JobStage::Waiting(attempt), JobEvent::Done) => (
            JobStage::Fetching(Way::Plain(attempt)),
            JobActionView::Fetch(Way::Plain(attempt)),
        ),
        _ => (JobStage::Over, JobActionView::Finish { ack: None, notice: Seq::empty() }),
    }
}

/// The fetching of a file.
#[derive(Debug)]
pub struct FileTask {
    /// The file.
    pub job: FileJob,
    /// The name that it is to be saved under.
    pub file_name: String,
    /// Where it stands.
    pub stage: JobStage,
}

fn ended(ack: bool, notice: String) -> (r: (JobStage, JobAction))
    ensures
        (r.0, r.1@) == over(ack, notice@),
{
    (JobStage::Over, JobAction::Finish { ack: Some(ack), notice })
}

impl FileTask {
    /// Every attempt's number is one of those that may be made.
    pub open spec fn wf(self) -> bool {
        match self.stage {
            JobStage::Fetching(Way::Plain(n)) => 1 <= n <= self.job.max_attempts(),
            JobStage::Probing(Way::Plain(n)) => 1 <= n <= self.job.max_attempts(),
            JobStage::Copying(Way::Plain(n)) => 1 <= n <= self.job.max_attempts(),
            JobStage::Saving(Way::Plain(n)) => 1 <= n <= self.job.max_attempts(),
            JobStage::Waiting(n) => 1 <= n <= self.job.max_attempts(),
            _ => true,
        }
    }

    /// Nothing done yet.
    pub fn new(job: FileJob) -> (r: FileTask)
        ensures
            r.job == job,
            r.stage == JobStage::Preparing,
            r.wf(),
            text::trimmed(job.event.file_name@).len() == 0 ==> r.file_name@ == "file"@,
            text::trimmed(job.event.file_name@).len() > 0 ==> exists|base: Seq<char>| #[trigger]
                crate::names::is_base_of(text::trimmed(job.event.file_name@), base)
                    && r.file_name@ == crate::client::save_name::saved_name(base),
    {
        let file_name = sanitize_file_name_for_save(&job.event.file_name);
        FileTask { job, file_name, stage: JobStage::Preparing }
    }

    /// The way that the file is fetched in first.
    fn way(&self) -> (r: Way)
        ensures
            r == first_way(self.job),
    {
        match self.job.event.transfer_mode {
            TransferMode::HttpStreaming => Way::HttpStream,
            TransferMode::Streaming => {
                if self.job.has_channel {
                    Way::GrpcStream
                } else {
                    Way::Plain(1)
                }
            },
            TransferMode::Relay => Way::Plain(1),
        }
    }

    /// An error in fetching or saving.
    fn on_error(&self, way: Way, error: DownloadError) -> (r: (JobStage, JobAction))
        ensures
            (r.0, r.1@) == after_error(self.job, way, error@),
    {
        match error {
            DownloadError::Terminal(message) => ended(false, message),
            DownloadError::Transient(message) => match way {
                Way::Plain(attempt) => {
                    let max: u32 = self.job.download_max_retries.saturating_add(1);
                    if attempt < max {
                        (JobStage::Waiting(attempt + 1), JobAction::Wait)
                    } else {
                        let mut notice = concat3(
                            "⚠ 文件下载失败（已重试 ",
                            &decimal_string((max - 1) as u64),
                            " 次）：",
                        );
                        push_chars(&mut notice, &chars_of(&message));
                        ended(false, notice)
                    }
                },
                _ => ended(false, message),
            },
        }
    }

    /// The notice of a picture that was pasted.
    fn pasted(&self) -> (r: String)
        ensures
            r@ == paste_notice(self.job, self.file_name@),
    {
        match &self.job.simulate_key_after_paste {
            Some(keys) => {
                let mut out = concat3("已自动粘贴图片（", keys, "）：");
                push_chars(&mut out, &chars_of(&self.file_name));
                out
            },
            None => concat("已自动粘贴图片：", &self.file_name),
        }
    }

    /// Is a picture of that size put on the clipboard?
    fn copies(&self, size: Option<(u32, u32)>) -> (r: bool)
        ensures
            r == is_copied(self.job, size),
    {
        match size {
            Some((w, h)) => match estimate_decoded_rgba_bytes(w, h) {
                Some(bytes) => bytes <= self.job.image_clipboard_max_decoded_bytes,
                None => false,
            },
            None => false,
        }
    }

    /// What is to be done next, after this came of the last action.
    fn next(&self, event: JobEvent) -> (r: (JobStage, JobAction))
        ensures
            (r.0, r.1@) == job_step(self.job, self.file_name@, self.stage, event),
    {
        match (self.stage, event) {
            (JobStage::Preparing, JobEvent::Done) => (JobStage::MakingDir, JobAction::MakeDir),
            (JobStage::Preparing, JobEvent::Failed(why)) => (
                JobStage::Over,
                JobAction::Finish {
                    ack: None,
                    notice: concat("⚠ 文件下载失败（构建 HTTP 客户端）：", &why),
                },
            ),
            (JobStage::MakingDir, JobEvent::Done) => {
                let way = self.way();
                (JobStage::Fetching(way), JobAction::Fetch(way))
            },
            (JobStage::MakingDir, JobEvent::Failed(why)) => {
                let mut notice = concat3("⚠ 无法创建保存目录 ", &self.job.file_save_dir, "：");
                push_chars(&mut notice, &chars_of(&why));
                ended(false, notice)
            },
            (JobStage::Fetching(way), JobEvent::Done) => {
                if self.job.pastes() {
                    (JobStage::Probing(way), JobAction::Probe)
                } else {
                    (JobStage::Saving(way), JobAction::Save)
                }
            },
            (JobStage::Fetching(way), JobEvent::Error(e)) => self.on_error(way, e),
            (JobStage::Probing(way), JobEvent::Size(size)) => {
                if self.copies(size) {
                    (JobStage::Copying(way), JobAction::Copy)
                } else {
                    (JobStage::Saving(way), JobAction::Save)
                }
            },
            (JobStage::Copying(way), JobEvent::Failed(_)) => (
                JobStage::Saving(way),
                JobAction::Save,
            ),
            (JobStage::Copying(_), JobEvent::Done) => {
                let named: Option<&str> = match &self.job.simulate_key_after_paste {
                    Some(keys) => Some(keys.as_str()),
                    None => None,
                };
                let keys = press_after_paste(named, self.job.enter_after_paste);
                (JobStage::Pasting, JobAction::Paste(keys))
            },
            (JobStage::Pasting, JobEvent::Done) => ended(true, self.pasted()),
            (JobStage::Saving(_), JobEvent::Saved(name)) => ended(
                true,
                concat("已保存文件：", &name),
            ),
            (JobStage::Saving(way), JobEvent::Error(e)) => self.on_error(way, e),
            (JobStage::Waiting(attempt), JobEvent::Done) => (
                JobStage::Fetching(Way::Plain(attempt)),
                JobAction::Fetch(Way::Plain(attempt)),
            ),
            _ => {
                let notice = String::new();
                assert(notice@ =~= Seq::empty());
                (JobStage::Over, JobAction::Finish { ack: None, notice })
            },
        }
    }

    /// What came of the last action, and what is to be done next.
    pub fn process_file_job(&mut self, event: JobEvent) -> (r: JobAction)
        ensures
            ({
                let want = job_step(old(self).job, old(self).file_name@, old(self).stage, event);
                &&& final(self).stage == want.0
                &&& r@ == want.1
                &&& final(self).job == old(self).job
                &&& final(self).file_name == old(self).file_name
                &&& old(self).wf() ==> final(self).wf()
            }),
    {
        let (stage, action) = self.next(event);
        self.stage = stage;
        action
    }
}

/// How far the fetching of a file has come: every step leads on, and there are only so many.
pub open spec fn steps_left(job: FileJob, stage: JobStage) -> int {
    let n = job.max_attempts();
    let of_way = |way: Way| match way {
        Way::Plain(a) => 6 * (n - a),
        _ => 0,
    };
    match stage {
        JobStage::Preparing => 6 * n + 8,
        JobStage::MakingDir => 6 * n + 7,
        JobStage::Fetching(way) => of_way(way) + 5,
        JobStage::Probing(way) => of_way(way) + 4,
        JobStage::Copying(way) => of_way(way) + 3,
        JobStage::Pasting => 1,
        JobStage::Saving(way) => of_way(way) + 2,
        JobStage::Waiting(a) => 6 * (n - a) + 6,
        JobStage::Over => 0,
    }
}

/// The fetching of a file ends, whatever comes of the single actions: there are never more than so
/// many steps left, and each takes one of them.
pub proof fn law_job_ends(task: FileTask, event: JobEvent)
    requires
        task.wf(),
        task.stage != JobStage::Over,
    ensures
        0 <= steps_left(
            task.job,
            job_step(task.job, task.file_name@, task.stage, event).0,
        ) < steps_left(task.job, task.stage),
{
}

/// The server is told of success only when the file was saved or pasted, and a file that was is
/// reported as such.
pub proof fn law_success_is_reported(task: FileTask, event: JobEvent)
    ensures
        ({
            let (stage, action) = job_step(task.job, task.file_name@, task.stage, event);
            (action matches JobActionView::Finish { ack, notice } && ack == Some(true)) <==> {
                ||| task.stage is Saving && event is Saved
                ||| task.stage is Pasting && event is Done
            }
        }),
{
}

/// An error that may not pass is never tried again, and a stream's never.
pub proof fn law_terminal_error_ends(task: FileTask, error: DownloadError)
    requires
        task.stage is Fetching || task.stage is Saving,
    ensures
        ({
            let (stage, action) = job_step(
                task.job,
                task.file_name@,
                task.stage,
                JobEvent::Error(error),
            );
            let way = if task.stage is Fetching {
                task.stage->Fetching_0
            } else {
                task.stage->Saving_0
            };
            (error is Terminal || !(way is Plain)) ==> stage == JobStage::Over && (
            action matches JobActionView::Finish { ack, notice } && ack == Some(false))
        }),
{
}

} // verus!
