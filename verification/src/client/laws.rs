//! What holds of the client as its user sees it: what becomes of a text, of a file, of a connection,
//! from what comes in to what is done.

use crate::client::clipboard;
use crate::client::clipboard::Key;
use crate::client::download::DownloadError;
use crate::client::file_handler;
use crate::client::file_handler::{FileJob, JobActionView, JobEvent, JobStage, Way};
use crate::client::grpc;
use crate::client::grpc::{ClientEvent, ClientEventView, LinkInput, Stage};
use crate::client::ui;
use crate::client::ui::{
    App, AppStateView, AppView, FrameInput, ItemView, RevokeView, Tone, TrayEvent, UiCommand,
    UiCommandView, UiSettings,
};
use crate::client::config::ClientConfig;
use crate::clock::Moment;
use crate::events::{Event, FileReceived, ServerEvent, TransferMode};
use crate::text;
use vstd::prelude::*;

verus! {

/// A text that the phone sends goes to the clipboard whole, character for character and however long
/// it is, once, and whatever the window shows. An empty text goes nowhere. What is done with it
/// besides is as the client is configured. Only the notice may be shorter than the text: it shows
/// twenty characters of it, and three dots where there are more.
pub proof fn law_text_reaches_the_clipboard(
    app: App,
    content: String,
    commands: Seq<UiCommand>,
)
    requires
        ui::command_views(commands) == app@.on_event(
            (ClientEvent::ClipboardText { content })@,
        ).1,
    ensures
        content@.len() == 0 ==> commands.len() == 0,
        content@.len() > 0 ==> {
            &&& commands.len() == 1
            &&& commands[0] matches UiCommand::Clipboard(job)
            &&& job.content@ == content@
            &&& job.auto_paste == app.config.auto_paste
            &&& job.enter_after_paste == app.config.enter_after_paste
            &&& job.paste_delay_ms == app.config.paste_delay_ms
            &&& job.delete_clipboard_after_paste == app.settings.delete_clipboard_after_paste
            &&& text::opt_chars(job.emulation_key_after_paste) == text::opt_chars(
                app.settings.emulation_key_after_paste,
            )
            &&& content@.len() <= 20 ==> job.notice_content@ == content@
            &&& content@.len() > 20 ==> job.notice_content@ == content@.take(20) + seq![
                '.',
                '.',
                '.',
            ]
        },
        app@.on_event((ClientEvent::ClipboardText { content })@).0 == app@,
{
    reveal_strlit("...");
    assert(commands.len() == ui::command_views(commands).len());
    if content@.len() > 0 {
        assert(ui::command_views(commands)[0] == commands[0]@);
    }
    assert("..."@ =~= seq!['.', '.', '.']);
}

/// The commands that several texts lead to.
proof fn lemma_texts(app: AppView, contents: Seq<Seq<char>>)
    requires
        forall|i: int| 0 <= i < contents.len() ==> (#[trigger] contents[i]).len() > 0,
    ensures
        ({
            let events = contents.map_values(
                |c: Seq<char>| ClientEventView::ClipboardText { content: c },
            );
            let (after, commands) = app.on_events(events);
            &&& after == app
            &&& commands.len() == contents.len()
            &&& forall|i: int|
                0 <= i < contents.len() ==> (#[trigger] commands[i] matches
                    UiCommandView::Clipboard(job) && job.content == contents[i])
        }),
    decreases contents.len(),
{
    let f = |c: Seq<char>| ClientEventView::ClipboardText { content: c };
    let events = contents.map_values(f);
    if contents.len() > 0 {
        let less = contents.drop_last();
        lemma_texts(app, less);
        assert(events.drop_last() =~= less.map_values(f));
        assert(events.last() == (ClientEventView::ClipboardText { content: contents.last() }));
        let (before, first) = app.on_events(events.drop_last());
        let commands = app.on_events(events).1;
        assert forall|i: int| 0 <= i < contents.len() implies (#[trigger] commands[i] matches
            UiCommandView::Clipboard(job) && job.content == contents[i]) by {
            if i < less.len() {
                assert(commands[i] == first[i]);
                assert(less[i] == contents[i]);
            }
        }
    }
}

/// Of several texts that come in at once none is lost, none is changed and none overtakes another.
pub proof fn law_texts_keep_their_order(app: AppView, contents: Seq<Seq<char>>)
    requires
        forall|i: int| 0 <= i < contents.len() ==> (#[trigger] contents[i]).len() > 0,
    ensures
        ({
            let events = contents.map_values(
                |c: Seq<char>| ClientEventView::ClipboardText { content: c },
            );
            let commands = app.on_events(events).1;
            &&& commands.len() == contents.len()
            &&& forall|i: int|
                0 <= i < contents.len() ==> (#[trigger] commands[i] matches
                    UiCommandView::Clipboard(job) && job.content == contents[i])
        }),
{
    lemma_texts(app, contents);
}

/// Whatever comes in on an open connection is acted on in the frame, before anything else, in the
/// order in which it came; and on a connection that is not open nothing comes in.
pub proof fn law_frame_does_all_that_came_in(app: AppView, input: FrameInput)
    ensures
        ({
            let events = ui::client_event_views(input.events@);
            let came = app.on_events(events).1;
            let done = app.frame(input).1;
            app.link_open ==> came.is_prefix_of(done)
        }),
        !app.link_open && input.tray@.len() == 0 && input.notices@.len() == 0 ==> app.frame(
            input,
        ).1.len() == 0,
{
    let events = ui::client_event_views(input.events@);
    let came = app.on_events(events).1;
    let (a, x) = app.link_part(input);
    let (b, y) = a.on_trays(input.tray@);
    let (c, z) = b.on_notices(ui::string_views(input.notices@), input.now);
    if app.link_open {
        assert(came.is_prefix_of(x));
        assert(came.is_prefix_of(x + y + z));
    }
}

/// The address that the server gives is drawn as a code, unchanged, and shown as text beside it until
/// the phone comes; and the session's token is kept.
pub proof fn law_address_is_shown(
    app: App,
    token: String,
    url: String,
    commands: Seq<UiCommand>,
    now: Moment,
)
    requires
        ui::command_views(commands) == app@.on_event(
            (ClientEvent::SessionToken { token, url })@,
        ).1,
    ensures
        commands.len() == 1,
        commands[0] matches UiCommand::DrawCode(drawn) && drawn@ == url@,
        ({
            let after = app@.on_event((ClientEvent::SessionToken { token, url })@).0;
            &&& after.last_session_token == Some(token@)
            &&& after.last_grpc_session_token == app@.last_grpc_session_token
            &&& after.screen(now).contains(ItemView::Code)
            &&& after.screen(now).contains(ItemView::Line(url@, Tone::Plain))
        }),
{
    assert(commands.len() == ui::command_views(commands).len());
    assert(ui::command_views(commands)[0] == commands[0]@);
    let screen = app@.on_event((ClientEvent::SessionToken { token, url })@).0.screen(now);
    assert(screen[0] == ItemView::Code);
    assert(screen[1] == ItemView::Line(url@, Tone::Plain));
}

/// A file that the server tells of is fetched, once, as it was told of, and nothing else changes.
pub proof fn law_told_file_is_fetched(app: App, file: FileReceived, commands: Seq<UiCommand>)
    requires
        ui::command_views(commands) == app@.on_event((ClientEvent::FileReceived(file))@).1,
    ensures
        commands.len() == 1,
        commands[0] matches UiCommand::Fetch(f) && {
            &&& f.file_id@ == file.file_id@
            &&& f.file_name@ == file.file_name@
            &&& f.mime_type@ == file.mime_type@
            &&& f.size_bytes == file.size_bytes
            &&& f.download_url@ == file.download_url@
            &&& f.sha256@ == file.sha256@
            &&& f.transfer_mode == file.transfer_mode
            &&& f.file_access_token@ == file.file_access_token@
        },
        app@.on_event((ClientEvent::FileReceived(file))@).0 == app@,
{
    assert(commands.len() == ui::command_views(commands).len());
    assert(ui::command_views(commands)[0] == commands[0]@);
}

/// A phone that connects is named in the window, and the window makes room where it can be found
/// again in the tray; one that leaves brings the window back. Neither touches the session.
pub proof fn law_phone_comes_and_goes(app: AppView, device: Seq<char>, now: Moment)
    ensures
        ({
            let (with, come) = app.on_event(ClientEventView::MobileConnected { device_info: device });
            let (without, gone) = with.on_event(ClientEventView::MobileDisconnected);
            &&& with.screen(now).len() >= 3
            &&& with.screen(now)[0] == ItemView::Line("已连接："@ + device, Tone::Plain)
            &&& app.has_tray ==> come == seq![UiCommandView::Visible(false)]
            &&& !app.has_tray ==> come.len() == 0
            &&& gone == seq![UiCommandView::Visible(true)]
            &&& without.last_session_token == app.last_session_token
            &&& without.last_grpc_session_token == app.last_grpc_session_token
            &&& without.last_public_base_url == app.last_public_base_url
            &&& without.link_open == app.link_open
            &&& without.reconnect_pending == app.reconnect_pending
            &&& without.reconnect_delay == app.reconnect_delay
        }),
{
}

/// What the server sends is told to the window as it was sent, whatever came before it, the first
/// event of a connection as well as every later one; only a ping is for nobody. With the first event
/// comes the session's secret.
pub proof fn law_event_reaches_the_window(
    endpoint: Seq<char>,
    message: ServerEvent,
    heartbeat_secs: u64,
)
    requires
        message.event is Some,
        !(message.event->0 is Ping),
    ensures
        ({
            let sent = message.event->0;
            let (stage, later) = grpc::link_step(
                endpoint,
                Stage::Streaming,
                LinkInput::Message(message),
                heartbeat_secs,
            );
            let (started, first) = grpc::link_step(
                endpoint,
                Stage::AwaitingFirst,
                LinkInput::Message(message),
                heartbeat_secs,
            );
            &&& stage == Stage::Streaming && started == Stage::Streaming
            &&& !later.stop && !first.stop
            &&& later.events.len() == 1
            &&& is_told(sent, later.events[0])
            &&& first.events.len() >= 1 && is_told(sent, first.events.last())
            &&& message.grpc_session_token@.len() > 0 ==> first.events[0] == (
            ClientEventView::GrpcSessionToken { token: message.grpc_session_token@ })
            &&& message.grpc_session_token@.len() > 0 && heartbeat_secs > 0 ==> first.heartbeat
                == Some(message.grpc_session_token@)
        }),
{
}

/// Does the window learn all of what the server sent?
pub open spec fn is_told(sent: Event, told: ClientEventView) -> bool {
    match sent {
        Event::SessionToken { token, url } => told == (ClientEventView::SessionToken {
            token: token@,
            url: url@,
        }),
        Event::MobileConnected { device_info } => told == (ClientEventView::MobileConnected {
            device_info: device_info@,
        }),
        Event::MobileDisconnected => told == ClientEventView::MobileDisconnected,
        Event::ClipboardText { content } => told == (ClientEventView::ClipboardText {
            content: content@,
        }),
        Event::FileReceived(file) => told == ClientEventView::FileReceived(file@),
        Event::Ping => false,
    }
}

/// A connection comes about in four steps and stays until it breaks: each thing that is waited for
/// leads on, and each that goes wrong ends it with a word to the user.
pub proof fn law_connection_comes_about(endpoint: Seq<char>, heartbeat_secs: u64, why: String)
    ensures
        grpc::link_step(endpoint, Stage::Preparing, LinkInput::Prepared, heartbeat_secs).0
            == Stage::Connecting,
        grpc::link_step(endpoint, Stage::Connecting, LinkInput::Connected, heartbeat_secs).0
            == Stage::Subscribing,
        grpc::link_step(endpoint, Stage::Subscribing, LinkInput::Subscribed, heartbeat_secs).0
            == Stage::AwaitingFirst,
        forall|stage: Stage, input: LinkInput|
            {
                let (next, out) = #[trigger] grpc::link_step(
                    endpoint,
                    stage,
                    input,
                    heartbeat_secs,
                );
                &&& out.stop <==> next == Stage::Ended && stage != Stage::Ended
                &&& out.stop ==> out.heartbeat is None && (out.events.len() == 1
                    || input is StreamClosed)
                &&& out.stop && out.events.len() == 1 ==> out.events[0] is ConnectingStatus
                    || out.events[0] is Error
                &&& out.stop && out.events.len() == 1 ==> (out.events[0] is Error <==> input is Unauthenticated)
            },
        grpc::link_step(
            endpoint,
            Stage::Streaming,
            LinkInput::StreamFailed(why),
            heartbeat_secs,
        ).1.stop,
        grpc::link_step(
            endpoint,
            Stage::Subscribing,
            LinkInput::Unauthenticated,
            heartbeat_secs,
        ).1.stop,
{
}

/// Where the fetching of a file stands after so much has come of its actions.
pub open spec fn job_after(job: FileJob, file_name: Seq<char>, events: Seq<JobEvent>) -> JobStage
    decreases events.len(),
{
    if events.len() == 0 {
        JobStage::Preparing
    } else {
        file_handler::job_step(
            job,
            file_name,
            job_after(job, file_name, events.drop_last()),
            events.last(),
        ).0
    }
}

/// Begins the media type with the word for pictures?
pub open spec fn is_picture(mime_type: Seq<char>) -> bool {
    mime_type.len() >= 6 && mime_type[0] == 'i' && mime_type[1] == 'm' && mime_type[2] == 'a'
        && mime_type[3] == 'g' && mime_type[4] == 'e' && mime_type[5] == '/'
}

proof fn lemma_is_picture(mime_type: Seq<char>)
    ensures
        is_picture(mime_type) <==> "image/"@.is_prefix_of(mime_type),
{
    reveal_strlit("image/");
    let word = "image/"@;
    if is_picture(mime_type) {
        assert(word =~= mime_type.subrange(0, 6));
    }
    if word.is_prefix_of(mime_type) {
        assert(word =~= mime_type.subrange(0, 6));
        assert(word[0] == mime_type[0] && word[1] == mime_type[1] && word[2] == mime_type[2]
            && word[3] == mime_type[3] && word[4] == mime_type[4] && word[5] == mime_type[5]);
    }
}

proof fn lemma_never_pasted(job: FileJob, file_name: Seq<char>, events: Seq<JobEvent>)
    requires
        !job.auto_paste || !job.pastes_images || !is_picture(job.mime_type@),
    ensures
        ({
            let stage = job_after(job, file_name, events);
            !(stage is Probing) && !(stage is Copying) && !(stage is Pasting)
        }),
    decreases events.len(),
{
    lemma_is_picture(job.mime_type@);
    if events.len() > 0 {
        lemma_never_pasted(job, file_name, events.drop_last());
    }
}

/// Where pasting is switched off, where the system's clipboard takes no pictures, or where the file is
/// no picture, no step of its fetching ever touches the clipboard or the keyboard, whatever comes of
/// the single actions: its bytes, once fetched, are saved.
pub proof fn law_nothing_is_pasted_unasked(
    job: FileJob,
    file_name: Seq<char>,
    events: Seq<JobEvent>,
    event: JobEvent,
)
    requires
        !job.auto_paste || !job.pastes_images || !is_picture(job.mime_type@),
    ensures
        ({
            let stage = job_after(job, file_name, events);
            let action = file_handler::job_step(job, file_name, stage, event).1;
            &&& !(action is Probe) && !(action is Copy) && !(action is Paste)
            &&& stage is Fetching && event is Done ==> action is Save
        }),
{
    lemma_never_pasted(job, file_name, events);
    lemma_is_picture(job.mime_type@);
}

/// Where pasting is switched on, a picture that was fetched is looked at; one that is known to take no
/// more than the limit once it is decoded goes to the clipboard, and is pasted from there with the
/// keys that the configuration names. Any other picture is saved, and so is one that the clipboard
/// does not take.
pub proof fn law_picture_is_pasted(
    job: FileJob,
    file_name: Seq<char>,
    way: Way,
    width: u32,
    height: u32,
    why: String,
)
    requires
        job.auto_paste,
        job.pastes_images,
    ensures
        ({
            let fetched = file_handler::job_step(
                job,
                file_name,
                JobStage::Fetching(way),
                JobEvent::Done,
            );
            if is_picture(job.mime_type@) {
                fetched.0 == JobStage::Probing(way) && fetched.1 is Probe
            } else {
                fetched.0 == JobStage::Saving(way) && fetched.1 is Save
            }
        }),
        ({
            let known = file_handler::job_step(
                job,
                file_name,
                JobStage::Probing(way),
                JobEvent::Size(Some((width, height))),
            );
            if 4 * (width as int * height as int) <= job.image_clipboard_max_decoded_bytes {
                known.0 == JobStage::Copying(way) && known.1 is Copy
            } else {
                known.0 == JobStage::Saving(way) && known.1 is Save
            }
        }),
        file_handler::job_step(
            job,
            file_name,
            JobStage::Probing(way),
            JobEvent::Size(None),
        ).1 is Save,
        file_handler::job_step(
            job,
            file_name,
            JobStage::Copying(way),
            JobEvent::Failed(why),
        ) == (JobStage::Saving(way), JobActionView::Save),
        ({
            let copied = file_handler::job_step(
                job,
                file_name,
                JobStage::Copying(way),
                JobEvent::Done,
            );
            copied.0 == JobStage::Pasting && (copied.1 matches JobActionView::Paste(keys) && {
                &&& keys.len() <= 2
                &&& job.enter_after_paste ==> keys.contains((None::<Key>, Key::Return))
                &&& !job.enter_after_paste && job.simulate_key_after_paste is None ==> keys.len()
                    == 0
            })
        }),
{
    lemma_is_picture(job.mime_type@);
    assert(width as int * height as int * 4 == 4 * (width as int * height as int))
        by (nonlinear_arith);
    clipboard::law_return_is_pressed(text::opt_chars(job.simulate_key_after_paste));
}

/// A file is fetched as it was announced: over HTTP while it comes in, over the event connection
/// where there is one, and else as a plain download. The directory is made first.
pub proof fn law_file_is_fetched_as_announced(job: FileJob, file_name: Seq<char>)
    ensures
        file_handler::job_step(job, file_name, JobStage::Preparing, JobEvent::Done)
            == (JobStage::MakingDir, JobActionView::MakeDir),
        ({
            let begun = file_handler::job_step(
                job,
                file_name,
                JobStage::MakingDir,
                JobEvent::Done,
            );
            &&& job.event.transfer_mode == TransferMode::HttpStreaming ==> begun.1
                == JobActionView::Fetch(Way::HttpStream)
            &&& job.event.transfer_mode == TransferMode::Streaming && job.has_channel ==> begun.1
                == JobActionView::Fetch(Way::GrpcStream)
            &&& job.event.transfer_mode == TransferMode::Streaming && !job.has_channel ==> begun.1
                == JobActionView::Fetch(Way::Plain(1))
            &&& job.event.transfer_mode == TransferMode::Relay ==> begun.1 == JobActionView::Fetch(
                Way::Plain(1),
            )
            &&& begun.1 matches JobActionView::Fetch(way) && begun.0 == JobStage::Fetching(way)
        }),
{
}

/// A download that fails in a way that may pass is tried again, a second later, exactly as often as
/// the configuration says, and then given up with the reason.
pub proof fn law_download_is_tried_again(
    job: FileJob,
    file_name: Seq<char>,
    attempt: u32,
    message: String,
)
    requires
        1 <= attempt,
        job.download_max_retries < u32::MAX,
    ensures
        ({
            let failed = file_handler::job_step(
                job,
                file_name,
                JobStage::Fetching(Way::Plain(attempt)),
                JobEvent::Error(DownloadError::Transient(message)),
            );
            let again = file_handler::job_step(job, file_name, failed.0, JobEvent::Done);
            if attempt <= job.download_max_retries {
                &&& failed.1 is Wait
                &&& again == (
                    JobStage::Fetching(Way::Plain((attempt + 1) as u32)),
                    JobActionView::Fetch(Way::Plain((attempt + 1) as u32)),
                )
            } else {
                &&& failed.0 is Over
                &&& failed.1 matches JobActionView::Finish { ack, notice } && ack == Some(false)
                    && message@.is_suffix_of(notice)
            }
        }),
{
    let failed = file_handler::job_step(
        job,
        file_name,
        JobStage::Fetching(Way::Plain(attempt)),
        JobEvent::Error(DownloadError::Transient(message)),
    );
    if attempt > job.download_max_retries {
        let notice = failed.1->notice;
        let n = notice.len() - message@.len();
        assert(notice.subrange(n, notice.len() as int) =~= message@);
    }
}

/// What was saved is reported under the name that it was saved under, and what was pasted under the
/// name that it came with; the reason of a failure that does not pass is told as it is.
pub proof fn law_outcome_is_told(
    job: FileJob,
    file_name: Seq<char>,
    way: Way,
    name: String,
    why: String,
)
    ensures
        ({
            let saved = file_handler::job_step(
                job,
                file_name,
                JobStage::Saving(way),
                JobEvent::Saved(name),
            ).1;
            saved matches JobActionView::Finish { ack, notice } && ack == Some(true) && notice
                == "已保存文件："@ + name@
        }),
        ({
            let pasted = file_handler::job_step(
                job,
                file_name,
                JobStage::Pasting,
                JobEvent::Done,
            ).1;
            pasted matches JobActionView::Finish { ack, notice } && ack == Some(true)
                && file_name.is_suffix_of(notice)
        }),
        ({
            let failed = file_handler::job_step(
                job,
                file_name,
                JobStage::Fetching(way),
                JobEvent::Error(DownloadError::Terminal(why)),
            ).1;
            failed == (JobActionView::Finish { ack: Some(false), notice: why@ })
        }),
{
    let pasted = file_handler::job_step(job, file_name, JobStage::Pasting, JobEvent::Done).1;
    let notice = pasted->notice;
    assert(notice.subrange(notice.len() - file_name.len(), notice.len() as int) =~= file_name);
}

/// The notice of a text ends with what is shown of the text, and says whether the text was pasted or
/// only copied.
pub proof fn law_notice_tells_the_truth(keys: Option<Seq<char>>, shown: Seq<char>)
    ensures
        shown.is_suffix_of(ui::clipboard_notice(true, keys, shown)),
        shown.is_suffix_of(ui::clipboard_notice(false, keys, shown)),
        "已自动粘贴"@.is_prefix_of(ui::clipboard_notice(true, keys, shown)),
        "已复制"@.is_prefix_of(ui::clipboard_notice(false, keys, shown)),
        keys matches Some(k) ==> text::has_part(ui::clipboard_notice(true, keys, shown), k),
{
    reveal_strlit("已自动粘贴");
    reveal_strlit("已复制");
    reveal_strlit("已自动粘贴（");
    reveal_strlit("）：");
    reveal_strlit("已自动粘贴：");
    reveal_strlit("已复制到剪贴板：");
    let pasted = ui::clipboard_notice(true, keys, shown);
    let copied = ui::clipboard_notice(false, keys, shown);
    assert(pasted.subrange(pasted.len() - shown.len(), pasted.len() as int) =~= shown);
    assert(copied.subrange(copied.len() - shown.len(), copied.len() as int) =~= shown);
    assert(pasted.subrange(0, 5) =~= "已自动粘贴"@);
    assert(copied.subrange(0, 3) =~= "已复制"@);
    if let Some(k) = keys {
        assert(pasted.subrange(6, 6 + k.len() as int) =~= k);
        assert(text::is_part_at(pasted, k, 6));
    }
}

/// After pasting no keys are pressed but those that the configuration names and return where that is
/// asked for; those that are named come first.
pub proof fn law_only_named_keys_are_pressed(named: Option<Seq<char>>, enter: bool)
    ensures
        ({
            let pressed = clipboard::keys_after_paste(named, enter);
            let meant = match named {
                Some(keys) => clipboard::keys_named(keys),
                None => None,
            };
            &&& forall|i: int|
                0 <= i < pressed.len() ==> Some(#[trigger] pressed[i]) == meant || (enter
                    && pressed[i] == (None::<Key>, Key::Return))
            &&& meant matches Some(keys) ==> pressed.len() > 0 && pressed[0] == keys
            &&& meant is None && !enter ==> pressed.len() == 0
            &&& pressed.len() <= 2
        }),
{
}

/// A key is pressed and let go once, and a modifier is held around it: nothing else is pressed.
pub proof fn law_key_is_struck_once(modifier: Option<Key>, key: Key)
    ensures
        ({
            let struck = clipboard::strokes(modifier, key);
            match modifier {
                None => struck.len() == 1 && struck[0].key == key && struck[0].direction is Click,
                Some(m) => {
                    &&& struck.len() == 3
                    &&& struck[0].key == m && struck[0].direction is Press
                    &&& struck[1].key == key && struck[1].direction is Click
                    &&& struck[2].key == m && struck[2].direction is Release
                },
            }
        }),
{
}

/// The modifiers have the names that keyboards give them, and no name means two keys.
pub proof fn law_names_of_keys_differ(a: Seq<char>, b: Seq<char>)
    ensures
        clipboard::key_named(a) is Some && clipboard::key_named(a) == clipboard::key_named(b)
            ==> a == b,
        clipboard::modifier_named(a) is Some && clipboard::modifier_named(a)
            == clipboard::modifier_named(b) ==> a == b,
        clipboard::modifier_named("ctrl"@) == Some(Key::Control),
        clipboard::modifier_named("shift"@) == Some(Key::Shift),
        clipboard::modifier_named("alt"@) == Some(Key::Alt),
        clipboard::modifier_named("meta"@) == Some(Key::Meta),
{
    reveal_strlit("ctrl");
    reveal_strlit("shift");
    reveal_strlit("alt");
    reveal_strlit("meta");
    assert("ctrl"@.len() == 4 && "shift"@.len() == 5 && "alt"@.len() == 3 && "meta"@[0] == 'm');
}

/// A client that starts has a connection in the making and nothing left over from another: no session,
/// no notice, no revocation. The first wait between attempts is one second.
pub proof fn law_client_starts_afresh(
    config: ClientConfig,
    settings: UiSettings,
    has_tray: bool,
    close_requested: bool,
)
    ensures
        ({
            let app = AppView::start(config, settings, has_tray);
            let (later, commands) = app.begin_frame(close_requested);
            &&& app.config == config && app.settings == settings && app.has_tray == has_tray
            &&& app.link_open && !app.reconnect_pending && app.reconnect_attempts == 0
            &&& app.reconnect_delay == 1_000_000_000
            &&& app.state is Connecting
            &&& app.last_session_token is None && app.last_grpc_session_token is None
            &&& app.last_public_base_url is None && app.revoke_url() is None
            &&& app.paste_notice is None && app.revoke_state is Idle
            &&& config.start_minimized ==> commands.len() > 0 && commands[0]
                == UiCommandView::Visible(!has_tray)
            &&& !config.start_minimized && !close_requested ==> commands.len() == 0
            &&& later.begin_frame(false).1.len() == 0
        }),
{
}

/// The window is hidden instead of closed only where the configuration says so and the tray can bring
/// it back; once the program is to end, it closes.
pub proof fn law_window_closes(app: AppView)
    requires
        !app.reconnect_pending,
        !app.startup_visibility_pending,
    ensures
        app.config.minimize_on_close && app.has_tray && !app.allow_close ==> app.begin_frame(true).1
            == seq![UiCommandView::CancelClose, UiCommandView::Visible(false)],
        !app.config.minimize_on_close || !app.has_tray || app.allow_close ==> app.begin_frame(
            true,
        ).1.len() == 0,
        app.begin_frame(false).1.len() == 0,
        app.on_tray(TrayEvent::Quit).1 == seq![UiCommandView::Close],
        app.on_tray(TrayEvent::Quit).0.begin_frame(true).1.len() == 0,
        app.on_tray(TrayEvent::ShowWindow).0 == app,
        app.on_tray(TrayEvent::ShowWindow).1 == seq![
            UiCommandView::Visible(true),
            UiCommandView::Focus,
        ],
{
}

/// A notice is shown to the user of a connected phone as it is, from the moment it comes, for as many
/// seconds as the configuration says and no longer.
pub proof fn law_notice_is_shown_for_its_time(
    app: AppView,
    device: Seq<char>,
    notice: Seq<char>,
    since: Moment,
    now: Moment,
)
    requires
        app.state == (AppStateView::Connected { device_info: device }),
        since <= now,
    ensures
        ({
            let shown = app.on_notice(notice, since).0;
            let later = shown.expire(now);
            &&& shown.screen(now)[1] == ItemView::Line(notice, Tone::Plain)
            &&& shown.state == app.state
            &&& now - since < app.config.notification_duration_secs * 1_000_000_000 ==> later
                == shown
            &&& now - since >= app.config.notification_duration_secs * 1_000_000_000
                ==> later.paste_notice is None && later.screen(now)[1] == ItemView::Line(
                "等待文本..."@,
                Tone::Plain,
            )
            &&& app.on_notice(notice, since).1 == seq![
                UiCommandView::RepaintAfter(
                    (app.config.notification_duration_secs * 1_000_000_000) as u128,
                ),
            ]
        }),
{
    let d = now - since;
    let n = app.config.notification_duration_secs as int;
    assert(d / 1_000_000_000 >= n <==> d >= n * 1_000_000_000);
}

/// A revocation is asked of the server that gave the session, for the client's own pairing; it can be
/// asked for exactly while there is a session with such a server.
pub proof fn law_revocation_is_asked_of_the_server(app: AppView, base: Seq<char>)
    requires
        app.last_public_base_url == Some(base),
        base.len() > 0,
        base.last() != '/',
        "https://"@.is_prefix_of(base) || "http://"@.is_prefix_of(base),
    ensures
        app.revoke_url() == Some(
            base + "/api/pairing/"@ + app.settings.pairing_id@ + "/revoke"@,
        ),
        app.last_grpc_session_token is Some ==> app.revoke().revoke_state is Running,
        app.last_grpc_session_token is None ==> app.revoke().revoke_state is Error,
        app.revoke().state == app.state,
        app.revoke().last_grpc_session_token == app.last_grpc_session_token,
{
    assert(base + ("/api/pairing/"@ + app.settings.pairing_id@ + "/revoke"@) =~= base
        + "/api/pairing/"@ + app.settings.pairing_id@ + "/revoke"@);
}

/// While a revocation is on its way the button cannot be pressed; its success is shown for five
/// seconds, and its failure with the reason.
pub proof fn law_revocation_is_shown(
    app: AppView,
    device: Seq<char>,
    at: Moment,
    now: Moment,
    why: Seq<char>,
)
    requires
        app.state == (AppStateView::Connected { device_info: device }),
        at <= now,
    ensures
        ({
            let running = AppView { revoke_state: RevokeView::Running, ..app };
            let done = AppView { revoke_state: RevokeView::Success(at), ..app };
            let failed = AppView { revoke_state: RevokeView::Error(why), ..app };
            let idle = AppView { revoke_state: RevokeView::Idle, ..app };
            &&& running.screen(now)[2] == ItemView::RevokeButton(false)
            &&& done.screen(now)[2] == ItemView::RevokeButton(true)
            &&& failed.screen(now)[2] == ItemView::RevokeButton(true)
            &&& idle.screen(now).len() == 3 && idle.screen(now)[2] == ItemView::RevokeButton(true)
            &&& done.screen(now).len() == 4 <==> now - at < 5_000_000_000
            &&& failed.screen(now).len() == 4 && failed.screen(now)[3] == ItemView::Line(
                why,
                Tone::Yellow,
            )
        }),
{
}

/// The wait before the next connection doubles with every loss, from one second on, up to the longest
/// that is configured; and an error is shown as it is.
pub proof fn law_wait_doubles(app: AppView, message: Seq<char>, now: Moment)
    requires
        !(app.state is Error),
        !app.reconnect_pending,
        app.config.max_reconnect_attempts == 0,
    ensures
        ({
            let (lost, commands) = app.on_disconnected();
            let longest = app.settings.reconnect_max_interval_secs * 1_000_000_000;
            &&& commands == seq![UiCommandView::RepaintAfter(app.reconnect_delay)]
            &&& 2 * app.reconnect_delay <= longest ==> lost.reconnect_delay == 2
                * app.reconnect_delay
            &&& 2 * app.reconnect_delay > longest ==> lost.reconnect_delay == longest
            &&& lost.state is Connecting
            &&& !lost.link_open && lost.reconnect_pending
            &&& lost.config == app.config && lost.settings == app.settings
        }),
        app.on_event(ClientEventView::Error { message }).0.screen(now) == seq![
            ItemView::Line("错误："@ + message, Tone::Red),
        ],
{
}

/// A host without a port, a bracket or a scheme is reached in clear text at the configured port; with
/// the scheme for TLS it is reached with TLS, and its certificate must bear its name.
pub proof fn law_plain_host_is_reached(host: Seq<char>, port: u16)
    requires
        host.len() > 0,
        forall|i: int|
            0 <= i < host.len() ==> {
                let c = #[trigger] host[i];
                c != ':' && c != '/' && c != '?' && c != '#' && c != '[' && !text::is_white(c)
            },
    ensures
        grpc::endpoint(host, port) == Ok::<(Seq<char>, Option<Seq<char>>), Seq<char>>(
            ("http://"@ + host + ":"@ + text::decimal(port as nat), None),
        ),
        grpc::endpoint("http://"@ + host, port) == Ok::<
            (Seq<char>, Option<Seq<char>>),
            Seq<char>,
        >(("http://"@ + host + ":"@ + text::decimal(port as nat), None)),
        grpc::endpoint("https://"@ + host, port) == Ok::<
            (Seq<char>, Option<Seq<char>>),
            Seq<char>,
        >(("https://"@ + host + ":"@ + text::decimal(port as nat), Some(host))),
{
    lemma_host_endpoint(host, port, Seq::empty());
    lemma_host_endpoint(host, port, "http://"@);
    lemma_host_endpoint(host, port, "https://"@);
    assert(Seq::<char>::empty() + host =~= host);
    reveal_strlit("http://");
    reveal_strlit("https://");
    assert("http://"@.len() == 7 && "https://"@.len() == 8);
}

proof fn lemma_host_endpoint(host: Seq<char>, port: u16, scheme: Seq<char>)
    requires
        host.len() > 0,
        forall|i: int|
            0 <= i < host.len() ==> {
                let c = #[trigger] host[i];
                c != ':' && c != '/' && c != '?' && c != '#' && c != '[' && !text::is_white(c)
            },
        scheme.len() == 0 || scheme == "http://"@ || scheme == "https://"@,
    ensures
        ({
            let https = scheme == "https://"@;
            let address = (if https {
                "https://"@
            } else {
                "http://"@
            }) + host + ":"@ + text::decimal(port as nat);
            grpc::endpoint(scheme + host, port) == Ok::<
                (Seq<char>, Option<Seq<char>>),
                Seq<char>,
            >(
                (
                    address,
                    if https {
                        Some(host)
                    } else {
                        None
                    },
                ),
            )
        }),
{
    reveal_strlit("http://");
    reveal_strlit("https://");
    reveal_strlit("://");
    reveal_strlit("http");
    reveal_strlit("https");
    reveal_strlit(":");
    let all = scheme + host;
    let https = scheme == "https://"@;
    assert(all.last() == host.last());
    assert(all[0] == 'h' || all[0] == host[0]);
    assert(text::trim_end(all) == all);
    assert(text::trim_start(all) == all);
    assert(text::trimmed(all) == all);
    if scheme.len() == 0 {
        assert(all =~= host);
        assert(!"https://"@.is_prefix_of(all)) by {
            if "https://"@.is_prefix_of(all) {
                assert(all.subrange(0, 8)[5] == "https://"@[5]);
                assert(all[5] == ':');
            }
        }
        assert(!"http://"@.is_prefix_of(all)) by {
            if "http://"@.is_prefix_of(all) {
                assert(all.subrange(0, 7)[4] == "http://"@[4]);
                assert(all[4] == ':');
            }
        }
        assert(!text::has_part(all, "://"@)) by {
            if text::has_part(all, "://"@) {
                let i = choose|i: int| text::is_part_at(all, "://"@, i);
                assert(all.subrange(i, i + 3)[0] == "://"@[0]);
                assert(all[i] == ':');
            }
        }
    } else if https {
        assert(all.subrange(0, 8) =~= "https://"@);
        assert(all.skip(8) =~= host);
    } else {
        assert(all.subrange(0, 7) =~= "http://"@);
        assert(all.skip(7) =~= host);
        assert(!"https://"@.is_prefix_of(all)) by {
            if "https://"@.is_prefix_of(all) {
                assert(all.subrange(0, 8)[4] == "https://"@[4]);
                assert(all[4] == ':');
            }
        }
    }
    assert(text::trim_end_of(host, '/') == host);
    assert(!host.contains('/') && !host.contains('?') && !host.contains('#'));
    assert(!host.contains(':'));
    text::lemma_last_at(host, ':');
    let want = "http"@ + "://"@ + (host + ":"@ + text::decimal(port as nat));
    assert(want =~= "http://"@ + host + ":"@ + text::decimal(port as nat));
    let tls = "https"@ + "://"@ + (host + ":"@ + text::decimal(port as nat));
    assert(tls =~= "https://"@ + host + ":"@ + text::decimal(port as nat));
}

/// A host that names its port is reached at that port, whatever port is configured.
pub proof fn law_named_port_is_kept(host: Seq<char>, named: Seq<char>, port: u16)
    requires
        host.len() > 0,
        named.len() > 0,
        forall|i: int|
            0 <= i < host.len() ==> {
                let c = #[trigger] host[i];
                c != ':' && c != '/' && c != '?' && c != '#' && c != '[' && !text::is_white(c)
            },
        forall|i: int|
            0 <= i < named.len() ==> {
                let c = #[trigger] named[i];
                c != ':' && c != '/' && c != '?' && c != '#' && !text::is_white(c)
            },
    ensures
        grpc::endpoint(host + ":"@ + named, port) == Ok::<
            (Seq<char>, Option<Seq<char>>),
            Seq<char>,
        >(("http://"@ + host + ":"@ + named, None)),
        grpc::tls_name(host + ":"@ + named) == Ok::<Seq<char>, Seq<char>>(host),
{
    reveal_strlit(":");
    reveal_strlit("http://");
    reveal_strlit("https://");
    reveal_strlit("http");
    reveal_strlit("://");
    let all = host + ":"@ + named;
    let n = host.len() as int;
    text::lemma_last_at(all, ':');
    assert(all[n] == ':');
    assert(all.contains(':'));
    let i = text::last_at(all, ':');
    assert(i == n) by {
        if i > n {
            assert(all[i] == named[i - n - 1]);
        }
        if i < n {
            assert(all[n] != ':');
        }
    }
    assert(all.take(n) =~= host);
    assert(!host.contains(':'));
    assert(all[0] == host[0]);
    assert(all.last() == named.last());
    assert forall|j: int| 0 <= j < all.len() implies {
        let c = #[trigger] all[j];
        c != '/' && c != '?' && c != '#' && !text::is_white(c)
    } by {
        if j < n {
            assert(all[j] == host[j]);
        } else if j > n {
            assert(all[j] == named[j - n - 1]);
        }
    }
    assert(text::trim_end(all) == all);
    assert(text::trimmed(all) == all);
    assert(!"https://"@.is_prefix_of(all)) by {
        if "https://"@.is_prefix_of(all) {
            assert(all.subrange(0, 8)[6] == "https://"@[6]);
            assert(all[6] == '/');
        }
    }
    assert(!"http://"@.is_prefix_of(all)) by {
        if "http://"@.is_prefix_of(all) {
            assert(all.subrange(0, 7)[5] == "http://"@[5]);
            assert(all[5] == '/');
        }
    }
    assert(!text::has_part(all, "://"@)) by {
        if text::has_part(all, "://"@) {
            let k = choose|k: int| text::is_part_at(all, "://"@, k);
            assert(all.subrange(k, k + 3)[1] == "://"@[1]);
            assert(all[k + 1] == '/');
        }
    }
    assert(text::trim_end_of(all, '/') == all);
    assert(!all.contains('/') && !all.contains('?') && !all.contains('#'));
    assert("http"@ + "://"@ + all =~= "http://"@ + host + ":"@ + named);
}

/// A bare address of version six names no port, however it ends, and stands in brackets where a port is
/// put behind it; one that stands in brackets already is left as it is.
pub proof fn law_bare_addresses_get_brackets(host: Seq<char>, i: int, j: int)
    requires
        0 <= i < j < host.len(),
        host[i] == ':',
        host[j] == ':',
        host[0] != '[',
    ensures
        !grpc::names_port(host),
        grpc::bracketed(host) == seq!['['] + host + seq![']'],
        grpc::bracketed(seq!['['] + host + seq![']']) == seq!['['] + host + seq![']'],
{
    reveal_strlit("[");
    reveal_strlit("]");
    assert("["@ =~= seq!['[']);
    assert("]"@ =~= seq![']']);
    text::lemma_last_at(host, ':');
    let last = text::last_at(host, ':');
    assert(host.contains(':'));
    assert(i < last);
    assert(host.take(last)[i] == ':');
    assert(host.take(last).contains(':'));
    assert((seq!['['] + host + seq![']'])[0] == '[');
}

/// The keys are called by the names that the configuration uses for them: none is meant by another name.
pub proof fn law_keys_have_their_names(name: Seq<char>, key: Key)
    requires
        clipboard::key_named(name) == Some(key),
    ensures
        key == Key::Return ==> name == "Return"@,
        key == Key::Tab ==> name == "Tab"@,
        key == Key::Escape ==> name == "Escape"@,
        key == Key::Space ==> name == "Space"@,
        key == Key::Backspace ==> name == "Backspace"@,
        key == Key::Delete ==> name == "Delete"@,
        key == Key::UpArrow ==> name == "Up"@,
        key == Key::DownArrow ==> name == "Down"@,
        key == Key::LeftArrow ==> name == "Left"@,
        key == Key::RightArrow ==> name == "Right"@,
        key == Key::F1 ==> name == "F1"@,
        key == Key::F2 ==> name == "F2"@,
        key == Key::F3 ==> name == "F3"@,
        key == Key::F4 ==> name == "F4"@,
        key == Key::F5 ==> name == "F5"@,
        key == Key::F6 ==> name == "F6"@,
        key == Key::F7 ==> name == "F7"@,
        key == Key::F8 ==> name == "F8"@,
        key == Key::F9 ==> name == "F9"@,
        key == Key::F10 ==> name == "F10"@,
        key == Key::F11 ==> name == "F11"@,
        key == Key::F12 ==> name == "F12"@,
        key == Key::Home ==> name == "Home"@,
        key == Key::End ==> name == "End"@,
        key == Key::PageUp ==> name == "PageUp"@,
        key == Key::PageDown ==> name == "PageDown"@,
{
}

/// The server is told what became of a file exactly where the client could have asked for it: a client that
/// cannot make requests tells it nothing, and one that has no place for the file tells it of the failure.
pub proof fn law_server_is_told_what_can_be_told(job: FileJob, file_name: Seq<char>, why: String)
    ensures
        file_handler::job_step(
            job,
            file_name,
            JobStage::Preparing,
            JobEvent::Failed(why),
        ).1 matches JobActionView::Finish { ack, notice } && ack is None && why@.is_suffix_of(notice),
        file_handler::job_step(
            job,
            file_name,
            JobStage::MakingDir,
            JobEvent::Failed(why),
        ).1 matches JobActionView::Finish { ack, notice } && ack == Some(false)
            && why@.is_suffix_of(notice) && text::has_part(notice, job.file_save_dir@),
{
    let first = file_handler::job_step(
        job,
        file_name,
        JobStage::Preparing,
        JobEvent::Failed(why),
    ).1->notice;
    assert(first.subrange(first.len() - why@.len(), first.len() as int) =~= why@);
    let second = file_handler::job_step(
        job,
        file_name,
        JobStage::MakingDir,
        JobEvent::Failed(why),
    ).1->notice;
    assert(second.subrange(second.len() - why@.len(), second.len() as int) =~= why@);
    let n = "⚠ 无法创建保存目录 "@.len() as int;
    assert(second.subrange(n, n + job.file_save_dir@.len()) =~= job.file_save_dir@);
    assert(text::is_part_at(second, job.file_save_dir@, n));
}

/// Waits are spread over the fifth below and the fifth above: two clients, or two attempts, that fall on
/// different places of the range wait differently long.
pub proof fn law_waits_are_spread(base_ms: nat, a: u64, n: u32, b: u64, m: u32)
    requires
        5 <= base_ms,
        base_ms + base_ms / 5 < u64::MAX,
    ensures
        ({
            let places = 2 * (base_ms / 5) + 1;
            let first = grpc::jittered_ms(base_ms, a, n);
            let second = grpc::jittered_ms(base_ms, b, m);
            &&& first == base_ms - base_ms / 5 + grpc::mixed(a, n) as nat % places
            &&& grpc::mixed(a, n) as nat % places != grpc::mixed(b, m) as nat % places ==> first
                != second
        }),
{
    let span = base_ms / 5;
    assert(span % 0x1_0000_0000_0000_0000 == span) by (nonlinear_arith)
        requires
            0 <= span < 0x1_0000_0000_0000_0000,
    ;
    let low = (base_ms - span) as nat;
    assert(low % 0x1_0000_0000_0000_0000 == low) by (nonlinear_arith)
        requires
            0 <= low < 0x1_0000_0000_0000_0000,
    ;
    let places = (2 * span + 1) as nat;
    assert(grpc::mixed(a, n) as nat % places < places) by (nonlinear_arith)
        requires
            places > 0,
    ;
    assert(grpc::mixed(b, m) as nat % places < places) by (nonlinear_arith)
        requires
            places > 0,
    ;
}

/// The waits between pings that fail grow as they are told to, up to the longest, and begin again at the
/// first once a ping succeeds; every failure counts as an attempt.
pub proof fn law_waits_grow(b: grpc::RetryBackoff, grown: u128)
    requires
        b.attempt < u32::MAX,
    ensures
        grown <= b.max ==> b.advanced(grown).next == grown,
        grown > b.max ==> b.advanced(grown).next == b.max,
        b.advanced(grown).attempt == b.attempt + 1,
        b.advanced(grown).restarted().next == b.base,
        b.advanced(grown).restarted().attempt == 0,
        b.advanced(grown).base == b.base && b.advanced(grown).max == b.max && b.advanced(grown).seed
            == b.seed,
{
}

/// How a connection is getting on is shown while it is being made: where it goes, and how far it has come;
/// and the session's secret is kept once it is known.
pub proof fn law_connecting_is_shown(
    app: AppView,
    target: Seq<char>,
    status: Seq<char>,
    token: Seq<char>,
    now: Moment,
)
    ensures
        ({
            let begun = app.on_event(ClientEventView::ConnectingTarget { message: target }).0;
            let (later, commands) = begun.on_event(
                ClientEventView::ConnectingStatus { message: status },
            );
            let known = later.on_event(ClientEventView::GrpcSessionToken { token }).0;
            let screen = later.screen(now);
            &&& screen.len() == 3
            &&& screen[1] == ItemView::Line(target, Tone::Plain)
            &&& screen[2] == ItemView::Line(status, Tone::Yellow)
            &&& commands.len() == 0
            &&& known.last_grpc_session_token == Some(token)
            &&& known.screen(now) == screen
            &&& known.config == app.config && known.settings == app.settings
            &&& known.link_open == app.link_open && known.reconnect_delay == app.reconnect_delay
        }),
{
}

} // verus!
