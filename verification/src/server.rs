//! The tools of the MCP server: taking a screenshot, and starting and
//! stopping the one recording there can be.

use crate::cli::output_path;
use crate::text::join;
use vstd::prelude::*;

verus! {

/// What a tool call answers.
pub enum Reply {
    Success(String),
    Error(String),
}

/// What a [`Reply`] holds.
pub enum ReplyView {
    Success(Seq<char>),
    Error(Seq<char>),
}

impl View for Reply {
    type V = ReplyView;

    open spec fn view(&self) -> ReplyView {
        match self {
            Reply::Success(text) => ReplyView::Success(text@),
            Reply::Error(text) => ReplyView::Error(text@),
        }
    }
}

/// What a call of `start_recording` asks for.
pub struct StartRequest {
    /// Output file. `recording.mp4` in the working directory if omitted.
    pub path: Option<String>,
    /// Whether to record desktop audio too. Video only if omitted.
    pub audio: Option<bool>,
}

impl StartRequest {
    /// The path and the audio setting to record with.
    pub fn resolve(self) -> (resolved: (String, bool))
        ensures
            resolved.0@ == match self.path {
                Some(path) => path@,
                None => "recording.mp4"@,
            },
            resolved.1 == (self.audio == Some(true)),
    {
        let audio: bool = match self.audio {
            Some(audio) => audio,
            None => false,
        };
        (output_path(self.path), audio)
    }
}

/// A recording that has been started and not been stopped. The handle is
/// what it takes to stop it.
pub struct ActiveRecording<H> {
    pub handle: H,
    pub path: String,
}

/// What is to be done next for a call of `start_recording`.
pub enum StartAction {
    /// Ask the user what to record.
    Negotiate,
    /// Start the thread that records.
    Spawn,
    /// Wait until the thread has set up the recording, or has failed to.
    AwaitSetup,
    /// Answer the call; nothing goes on.
    Answer(Reply),
}

/// What a [`StartAction`] holds.
pub enum StartActionView {
    Negotiate,
    Spawn,
    AwaitSetup,
    Answer(ReplyView),
}

impl View for StartAction {
    type V = StartActionView;

    open spec fn view(&self) -> StartActionView {
        match self {
            StartAction::Negotiate => StartActionView::Negotiate,
            StartAction::Spawn => StartActionView::Spawn,
            StartAction::AwaitSetup => StartActionView::AwaitSetup,
            StartAction::Answer(reply) => StartActionView::Answer(reply@),
        }
    }
}

/// The answer to a start while a recording is in progress.
pub open spec fn busy() -> ReplyView {
    ReplyView::Error("a recording is already in progress - call stop_recording first"@)
}

/// The place of the one recording that can be in progress.
pub struct RecordingSlot<H> {
    pub current: Option<ActiveRecording<H>>,
}

impl<H> RecordingSlot<H> {
    /// Whether a recording is in progress.
    pub open spec fn is_active(self) -> bool {
        self.current is Some
    }

    /// The slot without a recording.
    pub open spec fn idle() -> RecordingSlot<H> {
        RecordingSlot { current: None }
    }

    /// What a start leads to: the user is asked, unless a recording is in
    /// progress.
    pub open spec fn on_start(self) -> StartActionView {
        if self.is_active() {
            StartActionView::Answer(busy())
        } else {
            StartActionView::Negotiate
        }
    }

    /// What follows once the user has answered. Meanwhile another recording
    /// can have been started; it goes on, and this one is refused.
    pub open spec fn on_negotiated(self, err: Option<Seq<char>>) -> StartActionView {
        match err {
            Some(err) => StartActionView::Answer(
                ReplyView::Error("recording setup failed: "@ + err),
            ),
            None => if self.is_active() {
                StartActionView::Answer(busy())
            } else {
                StartActionView::Spawn
            },
        }
    }

    /// The slot once the recording thread has been started, or has not.
    pub open spec fn on_spawned(
        self,
        spawned: Result<H, String>,
        path: String,
    ) -> RecordingSlot<H> {
        match spawned {
            Ok(handle) => RecordingSlot { current: Some(ActiveRecording { handle, path }) },
            Err(_) => self,
        }
    }

    /// What follows once the recording thread has been started, or has not.
    pub open spec fn after_spawn(spawned: Result<H, String>) -> StartActionView {
        match spawned {
            Ok(_) => StartActionView::AwaitSetup,
            Err(err) => StartActionView::Answer(
                ReplyView::Error("failed to spawn recording thread: "@ + err@),
            ),
        }
    }

    /// The slot once the recording has been set up, or has failed to be.
    pub open spec fn on_begun(self, outcome: Result<(), String>) -> RecordingSlot<H> {
        match outcome {
            Ok(()) => self,
            Err(_) => RecordingSlot::<H>::idle(),
        }
    }

    /// The answer once the recording in the slot has been set up, or has
    /// failed to be.
    pub open spec fn begun_reply(self, outcome: Result<(), String>) -> ReplyView {
        match outcome {
            Ok(()) => ReplyView::Success("Recording started: "@ + self.current->0.path@),
            Err(err) => ReplyView::Error(err@),
        }
    }

    /// No recording is in progress.
    pub fn new() -> (slot: RecordingSlot<H>)
        ensures
            slot == RecordingSlot::<H>::idle(),
    {
        RecordingSlot { current: None }
    }

    /// The answer to a start, if it is refused because a recording is in
    /// progress.
    fn refusal(&self) -> (refusal: Option<Reply>)
        ensures
            refusal is Some == self.is_active(),
            refusal matches Some(reply) ==> reply@ == busy(),
    {
        if self.current.is_some() {
            Some(
                Reply::Error(
                    "a recording is already in progress - call stop_recording first".to_owned(),
                ),
            )
        } else {
            None
        }
    }

    /// A recording is to be started.
    pub fn start(&self) -> (action: StartAction)
        ensures
            action@ == self.on_start(),
    {
        match self.refusal() {
            Some(reply) => StartAction::Answer(reply),
            None => StartAction::Negotiate,
        }
    }

    /// The user has picked what to record, or setting up the screencast has
    /// failed.
    pub fn negotiated(&self, outcome: Result<(), String>) -> (action: StartAction)
        ensures
            action@ == self.on_negotiated(
                match outcome {
                    Ok(()) => None,
                    Err(err) => Some(err@),
                },
            ),
    {
        match outcome {
            Err(err) => StartAction::Answer(
                Reply::Error(join("recording setup failed: ", err.as_str())),
            ),
            Ok(()) => match self.refusal() {
                Some(reply) => StartAction::Answer(reply),
                None => StartAction::Spawn,
            },
        }
    }

    /// The recording thread has been started, as [`StartAction::Spawn`] asks
    /// for, or could not be. A thread that has been started takes the slot; the
    /// call is answered when it has set up the recording.
    pub fn spawned(&mut self, outcome: Result<H, String>, path: String) -> (action: StartAction)
        requires
            !old(self).is_active(),
        ensures
            *final(self) == old(self).on_spawned(outcome, path),
            action@ == RecordingSlot::<H>::after_spawn(outcome),
    {
        match outcome {
            Ok(handle) => {
                self.current = Some(ActiveRecording { handle, path });
                StartAction::AwaitSetup
            },
            Err(err) => StartAction::Answer(
                Reply::Error(join("failed to spawn recording thread: ", err.as_str())),
            ),
        }
    }

    /// The thread has set up the recording in the slot, as
    /// [`StartAction::AwaitSetup`] waits for, and recording has begun; or it
    /// has failed to, and has ended.
    pub fn begun(&mut self, outcome: Result<(), String>) -> (reply: Reply)
        requires
            old(self).is_active(),
        ensures
            *final(self) == old(self).on_begun(outcome),
            reply@ == old(self).begun_reply(outcome),
    {
        match outcome {
            Ok(()) => match &self.current {
                Some(recording) => Reply::Success(
                    join("Recording started: ", recording.path.as_str()),
                ),
                None => Reply::Error("no recording in progress".to_owned()),
            },
            Err(err) => {
                self.current = None;
                Reply::Error(err)
            },
        }
    }

    /// Hands out the recording in progress, to be stopped; after that there is
    /// none. Without one, there is only the answer.
    pub fn stop(&mut self) -> (stopped: Result<ActiveRecording<H>, Reply>)
        ensures
            *final(self) == RecordingSlot::<H>::idle(),
            match old(self).current {
                Some(recording) => stopped == Ok::<ActiveRecording<H>, Reply>(recording),
                None => stopped matches Err(reply) && reply@ == ReplyView::Error(
                    "no recording in progress"@,
                ),
            },
    {
        match self.current.take() {
            Some(recording) => Ok(recording),
            None => Err(Reply::Error("no recording in progress".to_owned())),
        }
    }
}

/// What `capture` answers: where the screenshot is, or what went wrong.
pub fn capture_reply(outcome: Result<String, String>) -> (reply: Reply)
    ensures
        reply@ == match outcome {
            Ok(uri) => ReplyView::Success(uri@),
            Err(err) => ReplyView::Error(err@),
        },
{
    match outcome {
        Ok(uri) => Reply::Success(uri),
        Err(err) => Reply::Error(err),
    }
}

/// What `stop_recording` answers once the recording has ended: where the file
/// is, or what went wrong.
pub fn stop_reply(path: String, outcome: Result<(), String>) -> (reply: Reply)
    ensures
        reply@ == match outcome {
            Ok(()) => ReplyView::Success(path@),
            Err(err) => ReplyView::Error(err@),
        },
{
    match outcome {
        Ok(()) => Reply::Success(path),
        Err(err) => Reply::Error(err),
    }
}

/// There is one recording at a time: while one is in progress, no call of
/// `start_recording` gets a thread to record on, at whatever point of it the
/// other began.
pub proof fn law_one_at_a_time<H>(slot: RecordingSlot<H>, err: Option<Seq<char>>)
    ensures
        slot.is_active() ==> slot.on_start() == StartActionView::Answer(busy()),
        slot.is_active() ==> slot.on_negotiated(err) != StartActionView::Spawn,
        slot.on_negotiated(err) == StartActionView::Spawn ==> slot == RecordingSlot::<H>::idle(),
{
}

/// What a start put into the slot is what the next stop hands out, and a
/// start that failed, at whatever point, leaves nothing to stop.
pub proof fn law_stop_ends_what_start_began<H>(
    spawned: Result<H, String>,
    path: String,
    begun: Result<(), String>,
)
    ensures
        RecordingSlot::<H>::idle().on_spawned(spawned, path).on_begun(begun).current == match (
            spawned,
            begun,
        ) {
            (Ok(handle), Ok(())) => Some(ActiveRecording { handle, path }),
            _ => None,
        },
{
}

/// Success means that recording has begun: before the thread has set up the
/// recording, a call of `start_recording` is answered only with errors, and a
/// setup that failed is answered with its error.
pub proof fn law_success_means_begun<H>(
    slot: RecordingSlot<H>,
    err: Option<Seq<char>>,
    spawned: Result<H, String>,
    begun: Result<(), String>,
)
    ensures
        slot.on_start() matches StartActionView::Answer(reply) ==> reply is Error,
        slot.on_negotiated(err) matches StartActionView::Answer(reply) ==> reply is Error,
        RecordingSlot::<H>::after_spawn(spawned) matches StartActionView::Answer(reply) ==> reply
            is Error,
        slot.begun_reply(begun) is Success <==> begun is Ok,
        begun matches Err(message) ==> slot.begun_reply(begun) == ReplyView::Error(message@),
{
}

/// A slot that is free can be taken: without a recording in progress the user
/// is asked, and once the user has picked something, a thread is started. A
/// setup that failed is answered with its error, whatever the slot holds.
pub proof fn law_a_free_slot_can_be_taken<H>(slot: RecordingSlot<H>, err: Seq<char>)
    ensures
        slot.current is None ==> slot.on_start() == StartActionView::Negotiate,
        slot.current is None ==> slot.on_negotiated(None) == StartActionView::Spawn,
        slot.current is Some ==> slot.on_negotiated(None) == StartActionView::Answer(
            ReplyView::Error("a recording is already in progress - call stop_recording first"@),
        ),
        slot.on_negotiated(Some(err)) == StartActionView::Answer(
            ReplyView::Error("recording setup failed: "@ + err),
        ),
        RecordingSlot::<H>::idle().current is None,
{
}

/// A thread that was started takes the slot, under the path it records to,
/// and is waited for; one that was not leaves the slot as it is, and its error
/// is the answer.
pub proof fn law_a_thread_takes_the_slot<H>(
    slot: RecordingSlot<H>,
    handle: H,
    err: String,
    path: String,
)
    ensures
        slot.on_spawned(Ok(handle), path).current matches Some(recording) && recording.handle
            == handle && recording.path == path,
        slot.on_spawned(Err(err), path) == slot,
        RecordingSlot::<H>::after_spawn(Ok(handle)) == StartActionView::AwaitSetup,
        RecordingSlot::<H>::after_spawn(Err(err)) == StartActionView::Answer(
            ReplyView::Error("failed to spawn recording thread: "@ + err@),
        ),
{
}

/// A recording that has begun stays in the slot, and its path is the answer.
pub proof fn law_begun_names_the_path<H>(slot: RecordingSlot<H>, err: String)
    ensures
        slot.on_begun(Ok(())) == slot,
        slot.current matches Some(recording) ==> slot.begun_reply(Ok(())) == ReplyView::Success(
            "Recording started: "@ + recording.path@,
        ),
        slot.on_begun(Err(err)).current is None,
        slot.begun_reply(Err(err)) == ReplyView::Error(err@),
{
}

/// A reply and an action say what they hold.
pub proof fn law_replies_are_read_whole(text: String, reply: Reply)
    ensures
        Reply::Success(text)@ == ReplyView::Success(text@),
        Reply::Error(text)@ == ReplyView::Error(text@),
        StartAction::Negotiate@ == StartActionView::Negotiate,
        StartAction::Spawn@ == StartActionView::Spawn,
        StartAction::AwaitSetup@ == StartActionView::AwaitSetup,
        StartAction::Answer(reply)@ == StartActionView::Answer(reply@),
{
}

} // verus!
