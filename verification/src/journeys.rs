//! What holds from one end to the other: from the phone to the PC's clipboard and disk, and from the
//! PC's code back to the phone.

use crate::client::config;
use crate::client::config::{ClientConfig, RawClientConfig};
use crate::client::file_handler;
use crate::client::file_handler::{FileJob, JobActionView, JobEvent, JobStage, Way};
use crate::client::grpc;
use crate::client::grpc::{LinkInput, Stage};
use crate::client::laws as client_laws;
use crate::client::ui;
use crate::client::ui::{AppView, UiCommandView};
use crate::clock::Moment;
use crate::common::MobileMessage;
use crate::events::{Event, ServerEvent};
use crate::ids;
use crate::ids::Id;
use crate::net;
use crate::server::file_laws;
use crate::server::laws as server_laws;
use crate::server::pairing;
use crate::server::persist;
use crate::server::reply::ReplyView;
use crate::server::upload;
use crate::server::upload::UploadDispatchMode;
use crate::server::upload_store;
use crate::server::upload_store::StoreView;
use crate::server::web;
use crate::server::web::StateView;
use crate::server::ws;
use crate::server::ws::{LinkAction, LinkEvent, PhoneLink};
use crate::text;
use vstd::prelude::*;

verus! {

/// A text that is typed on the phone is put on the clipboard of the pairing's PC, character for
/// character, once.
pub proof fn law_typed_text_arrives(
    v: StateView,
    link: PhoneLink,
    len: usize,
    content: String,
    now: Moment,
    action: LinkAction,
    token: Seq<char>,
    channel: u64,
    endpoint: Seq<char>,
    heartbeat_secs: u64,
    app: AppView,
)
    requires
        content@.len() > 0,
        len <= v.config.max_message_size_bytes,
        web::ws_fault(
            v,
            link.pairing_id,
            link.browser_session_id@,
            link.connection_id,
            now,
        ) is None,
        v.pairings.contains_key(link.pairing_id),
        v.pairings[link.pairing_id].active_session_token == Some(token),
        v.sessions.contains_key(token),
        v.sessions[token].client_tx == Some(channel),
        ws::is_step(
            v,
            link,
            LinkEvent::Text { len, message: Some(MobileMessage::ClipboardText { content }) },
            now,
            action,
        ),
    ensures
        action matches LinkAction::Forward(notice) && notice.client_tx == channel && {
            let told = grpc::link_step(
                endpoint,
                Stage::Streaming,
                LinkInput::Message(notice.event),
                heartbeat_secs,
            ).1.events;
            &&& told.len() == 1
            &&& app.on_event(told[0]).1.len() == 1
            &&& app.on_event(told[0]).1[0] matches UiCommandView::Clipboard(job)
            &&& job.content == content@
            &&& job.auto_paste == app.config.auto_paste
        },
{
    server_laws::law_text_is_passed_on(v, link, len, content, now, action, token, channel, 0);
    let message = action->Forward_0.event;
    client_laws::law_event_reaches_the_window(endpoint, message, heartbeat_secs);
}

/// A file that the phone uploads while the PC follows over HTTP is told to the PC, which asks for it at
/// the address of its stream, and is let in there with what it was told.
pub proof fn law_streamed_file_is_asked_for(
    base: Seq<char>,
    file_id: Id,
    name: Seq<char>,
    mime_type: Seq<char>,
    token: Seq<u8>,
    event: Event,
    message: ServerEvent,
    endpoint: Seq<char>,
    heartbeat_secs: u64,
    app: AppView,
    job: FileJob,
    file_name: Seq<char>,
    s: StoreView,
)
    requires
        base.len() > 0,
        base.last() != '/',
        event@ == upload::file_event(
            base,
            file_id,
            UploadDispatchMode::HttpStreaming,
            name,
            mime_type,
            0,
            Seq::empty(),
            token,
        ),
        message.event == Some(event),
        event matches Event::FileReceived(file) && job.event == file,
        ids::uuid_parse(ids::uuid_text(file_id)) == Some(file_id),
        token.len() == 32,
        s.files.contains_key(file_id),
        s.files[file_id].file_access_token == token,
    ensures
        ({
            let told = grpc::link_step(
                endpoint,
                Stage::Streaming,
                LinkInput::Message(message),
                heartbeat_secs,
            ).1.events;
            &&& told.len() == 1
            &&& app.on_event(told[0]).1.len() == 1
            &&& app.on_event(told[0]).1[0] matches UiCommandView::Fetch(file)
            &&& file.download_url == base + "/api/files/"@ + ids::uuid_text(file_id) + "/stream"@
            &&& file_handler::job_step(job, file_name, JobStage::MakingDir, JobEvent::Done).1
                == JobActionView::Fetch(Way::HttpStream)
            &&& upload::file_access(
                s,
                file.file_id,
                Some("Bearer "@ + pairing::hex_of(file.file_access_token)),
            ) == Ok::<Id, ReplyView>(file_id)
        }),
{
    assert(base + Seq::<char>::empty() =~= base);
    file_laws::law_pc_is_told_the_truth(
        base,
        Seq::empty(),
        file_id,
        UploadDispatchMode::HttpStreaming,
        name,
        mime_type,
        0,
        Seq::empty(),
        token,
        event,
    );
    client_laws::law_event_reaches_the_window(endpoint, message, heartbeat_secs);
    file_laws::law_told_pc_may_have_the_file(s, file_id, Seq::empty(), 0, true);
}

/// A configuration of the client is taken as it is written; only a port that is not given is the usual
/// one, which is another with TLS than without.
pub proof fn law_configuration_is_taken_as_written(raw: RawClientConfig)
    ensures
        ({
            let c = <ClientConfig as vstd::std_specs::convert::FromSpec<
                RawClientConfig,
            >>::from_spec(raw);
            &&& c.server_host == raw.server_host && c.grpc_auth_token == raw.grpc_auth_token
            &&& c.auto_paste == raw.auto_paste && c.enter_after_paste == raw.enter_after_paste
            &&& c.paste_delay_ms == raw.paste_delay_ms
            &&& c.max_reconnect_attempts == raw.max_reconnect_attempts
            &&& c.start_minimized == raw.start_minimized && c.minimize_on_close
                == raw.minimize_on_close
            &&& c.notification_duration_secs == raw.notification_duration_secs
            &&& raw.grpc_port matches Some(port) ==> c.grpc_port == port
            &&& raw.grpc_port is None ==> c.grpc_port == 443 || c.grpc_port == 50051
            &&& raw.grpc_port is None ==> (c.grpc_port == 443 <==> "https://"@.is_prefix_of(
                text::trimmed(raw.server_host@),
            ))
        }),
{
}

/// A configuration of the client is accepted exactly where it names a server, with nothing behind the
/// host, and the shared secret.
pub proof fn law_client_configuration_is_accepted(c: ClientConfig)
    ensures
        c.error() is None <==> {
            &&& text::trimmed(c.server_host@).len() > 0
            &&& text::trimmed(c.grpc_auth_token@).len() > 0
            &&& config::host_parts(c.server_host@) is Ok
        },
        config::host_parts(c.server_host@) matches Ok((https, authority)) ==> {
            &&& authority.len() > 0
            &&& !authority.contains('/') && !authority.contains('?') && !authority.contains('#')
            &&& https <==> "https://"@.is_prefix_of(text::trimmed(c.server_host@))
        },
{
}

/// The address that the client asks for revocations is that of the page that the phone is shown: its
/// scheme, its host, and its port where it has one.
pub proof fn law_base_is_that_of_the_page(url: Seq<char>, parts: net::UrlView, host: Seq<char>)
    requires
        net::url_parse(url) == Ok::<net::UrlView, Seq<char>>(parts),
    ensures
        parts.host_str == Some(host) && parts.port is None ==> ui::base_of(url) == Some(
            parts.scheme + "://"@ + host,
        ),
        parts.host_str == Some(host) ==> (parts.port matches Some(port) ==> ui::base_of(url) == Some(
            parts.scheme + "://"@ + host + ":"@ + text::decimal(port as nat),
        )),
        parts.host_str is None ==> ui::base_of(url) is None,
{
    if parts.host_str == Some(host) && parts.port is None {
        assert(parts.scheme + "://"@ + host + Seq::<char>::empty() =~= parts.scheme + "://"@ + host);
    }
    if parts.port is Some {
        let port = parts.port->0;
        assert(parts.scheme + "://"@ + host + (":"@ + text::decimal(port as nat)) =~= parts.scheme
            + "://"@ + host + ":"@ + text::decimal(port as nat));
    }
}

/// The number that decimal digits write.
pub open spec fn number_of(digits: Seq<char>) -> nat
    decreases digits.len(),
{
    if digits.len() == 0 {
        0
    } else {
        10 * number_of(digits.drop_last()) + (digits.last() as u32 - '0' as u32) as nat
    }
}

/// A number that is written in decimal reads as that number, and does not begin with a zero unless it is
/// one.
pub proof fn law_decimal_reads_back(n: nat)
    ensures
        number_of(text::decimal(n)) == n,
        n > 0 ==> text::decimal(n)[0] != '0',
    decreases n,
{
    if n < 10 {
        assert(text::decimal(n).drop_last() =~= Seq::empty());
        assert(number_of(Seq::empty()) == 0);
    } else {
        law_decimal_reads_back(n / 10);
        text::lemma_decimal_digits(n / 10);
        assert(text::decimal(n).drop_last() =~= text::decimal(n / 10));
        assert(text::decimal(n)[0] == text::decimal(n / 10)[0]);
    }
}

/// What is trimmed off is only what is to be trimmed off, and nothing of it is left at the end.
pub proof fn law_trimming_takes_only_the_end(s: Seq<char>, c: char)
    ensures
        ({
            let t = text::trim_end_of(s, c);
            &&& t.is_prefix_of(s)
            &&& t.len() > 0 ==> t.last() != c
            &&& forall|i: int| t.len() <= i < s.len() ==> s[i] == c
        }),
        ({
            let t = text::trim_end(s);
            &&& t.is_prefix_of(s)
            &&& t.len() > 0 ==> !text::is_white(t.last())
            &&& forall|i: int| t.len() <= i < s.len() ==> text::is_white(#[trigger] s[i])
        }),
    decreases s.len(),
{
    if s.len() > 0 {
        law_trimming_takes_only_the_end(s.drop_last(), c);
        let t = text::trim_end_of(s, c);
        let w = text::trim_end(s);
        if s.last() == c {
            assert forall|i: int| t.len() <= i < s.len() implies s[i] == c by {
                if i < s.len() - 1 {
                    assert(s.drop_last()[i] == s[i]);
                }
            }
            assert(t =~= s.subrange(0, t.len() as int));
        }
        if text::is_white(s.last()) {
            assert forall|i: int| w.len() <= i < s.len() implies text::is_white(#[trigger] s[i]) by {
                if i < s.len() - 1 {
                    assert(s.drop_last()[i] == s[i]);
                }
            }
            assert(w =~= s.subrange(0, w.len() as int));
        }
    }
}

/// The limits that the server keeps and the times that it waits, and those of the client.
pub proof fn law_limits_are_as_promised()
    ensures
        web::STATUS_PER_MINUTE == 30,
        web::TICKETS_PER_MINUTE == 12,
        web::REVOCATIONS_PER_PAIRING_PER_MINUTE == 5,
        web::REVOCATIONS_PER_SESSION_PER_MINUTE == 10,
        ws::PING_PERIOD_SECS == 30,
        ws::PING_BURST == 2,
        ws::CLOSE_POLICY == 1008,
        upload::HTTP_STREAMING_CAPABILITY == 1,
        upload::MAX_ATTACH_RETRIES * upload::ATTACH_RETRY_INTERVAL_MS == 500,
        upload_store::SEND_TIMEOUT_SECS == 5,
        upload_store::STREAM_CAPACITY == 4,
        persist::QUEUE_CAPACITY == 1024,
        grpc::CONNECT_TIMEOUT_SECS == 10,
        grpc::SUBSCRIBE_TIMEOUT_SECS == 10,
        grpc::FIRST_EVENT_TIMEOUT_SECS == 10,
        grpc::HEARTBEAT_RETRY_INITIAL_SECS == 1,
        grpc::HEARTBEAT_RETRY_MAX_SECS == 60,
        grpc::HEARTBEAT_UNHEALTHY_THRESHOLD == 5,
        grpc::NANOS_PER_SEC == 1_000_000_000,
        crate::client::save_name::MAX_NUMBERED_NAMES == 9999,
{
}

} // verus!
