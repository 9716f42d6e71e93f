use prtsc::server::{
    capture_reply, stop_reply, RecordingSlot, Reply, StartAction, StartRequest,
};

const BUSY: &str = "a recording is already in progress - call stop_recording first";

fn text(reply: Reply) -> Result<String, String> {
    match reply {
        Reply::Success(text) => Ok(text),
        Reply::Error(text) => Err(text),
    }
}

fn answer(action: StartAction) -> String {
    match action {
        StartAction::Answer(reply) => text(reply).unwrap_err(),
        _ => panic!("the call is not answered yet"),
    }
}

#[test]
fn requests_have_defaults() {
    let request = StartRequest { path: None, audio: None };
    assert_eq!(request.resolve(), ("recording.mp4".to_string(), false));
    let request = StartRequest { path: Some("a.mp4".to_string()), audio: Some(true) };
    assert_eq!(request.resolve(), ("a.mp4".to_string(), true));
    let request = StartRequest { path: None, audio: Some(false) };
    assert_eq!(request.resolve(), ("recording.mp4".to_string(), false));
}

#[test]
fn stop_ends_what_start_began() {
    let mut slot: RecordingSlot<u8> = RecordingSlot::new();
    assert!(matches!(slot.start(), StartAction::Negotiate));
    assert!(matches!(slot.negotiated(Ok(())), StartAction::Spawn));
    assert!(matches!(slot.spawned(Ok(7), "a.mp4".to_string()), StartAction::AwaitSetup));
    assert_eq!(text(slot.begun(Ok(()))), Ok("Recording started: a.mp4".to_string()));
    let Ok(recording) = slot.stop() else {
        panic!("nothing to stop");
    };
    assert_eq!((recording.handle, recording.path.as_str()), (7, "a.mp4"));
    let Err(reply) = slot.stop() else {
        panic!("stopped twice");
    };
    assert_eq!(text(reply), Err("no recording in progress".to_string()));
    assert!(matches!(slot.start(), StartAction::Negotiate));
}

#[test]
fn there_is_one_recording_at_a_time() {
    let mut slot: RecordingSlot<u8> = RecordingSlot::new();
    slot.spawned(Ok(1), "a.mp4".to_string());
    assert_eq!(answer(slot.start()), BUSY);
    assert_eq!(slot.stop().ok().map(|recording| recording.handle), Some(1));
}

#[test]
fn a_start_that_was_overtaken_is_refused() {
    let mut slot: RecordingSlot<u8> = RecordingSlot::new();
    assert!(matches!(slot.start(), StartAction::Negotiate));
    assert!(matches!(slot.start(), StartAction::Negotiate));
    assert!(matches!(slot.negotiated(Ok(())), StartAction::Spawn));
    slot.spawned(Ok(1), "a.mp4".to_string());
    assert_eq!(answer(slot.negotiated(Ok(()))), BUSY);
    assert_eq!(slot.stop().ok().map(|recording| recording.handle), Some(1));
}

#[test]
fn a_setup_that_failed_starts_nothing() {
    let mut slot: RecordingSlot<u8> = RecordingSlot::new();
    let action = slot.negotiated(Err("cancelled".to_string()));
    assert_eq!(answer(action), "recording setup failed: cancelled");
    assert!(slot.stop().is_err());
}

#[test]
fn a_thread_that_failed_starts_nothing() {
    let mut slot: RecordingSlot<u8> = RecordingSlot::new();
    let action = slot.spawned(Err("no memory".to_string()), "a.mp4".to_string());
    assert_eq!(answer(action), "failed to spawn recording thread: no memory");
    assert!(matches!(slot.start(), StartAction::Negotiate));
    assert!(slot.stop().is_err());
}

#[test]
fn replies_say_where_the_file_is_or_what_went_wrong() {
    assert_eq!(text(capture_reply(Ok("file:///a.png".to_string()))), Ok("file:///a.png".to_string()));
    assert_eq!(text(capture_reply(Err("denied".to_string()))), Err("denied".to_string()));
    assert_eq!(text(stop_reply("a.mp4".to_string(), Ok(()))), Ok("a.mp4".to_string()));
    assert_eq!(
        text(stop_reply("a.mp4".to_string(), Err("disk full".to_string()))),
        Err("disk full".to_string())
    );
}

#[test]
fn success_means_that_recording_has_begun() {
    let mut slot: RecordingSlot<u8> = RecordingSlot::new();
    assert!(matches!(slot.spawned(Ok(1), "a.mp4".to_string()), StartAction::AwaitSetup));
    assert_eq!(answer(slot.start()), BUSY);
    assert_eq!(text(slot.begun(Err("no such directory".to_string()))), Err("no such directory".to_string()));
    assert!(matches!(slot.start(), StartAction::Negotiate));
    assert!(slot.stop().is_err());
}
