//! What a screencast session offers, and which stream of it is recorded.

use vstd::prelude::*;

verus! {

/// A stream of a screencast session, as the portal reports it.
#[derive(Clone, Copy, Debug, PartialEq, Eq)]
pub struct StreamInfo {
    /// The PipeWire node that delivers the stream.
    pub node_id: u32,
    pub size: Option<(i32, i32)>,
}

/// The stream that is recorded.
#[derive(Clone, Copy, Debug, PartialEq, Eq)]
pub struct SelectedStream {
    pub node_id: u32,
    pub size: (i32, i32),
}

/// Picks the stream to record: the first, which the user chose in the
/// portal's dialog. Without a stream, or without a size for it, there is
/// nothing to record.
pub fn select_stream(streams: &Vec<StreamInfo>) -> (selected: Result<SelectedStream, String>)
    ensures
        streams@.len() == 0 ==> (selected matches Err(message) && message@
            == "portal returned no streams"@),
        streams@.len() > 0 ==> match streams@[0].size {
            None => selected matches Err(message) && message@ == "portal stream has no size"@,
            Some(size) => selected == Ok::<SelectedStream, String>(
                SelectedStream { node_id: streams@[0].node_id, size },
            ),
        },
{
    if streams.len() == 0 {
        return Err("portal returned no streams".to_owned());
    }
    let stream: StreamInfo = streams[0];
    match stream.size {
        Some(size) => Ok(SelectedStream { node_id: stream.node_id, size }),
        None => Err("portal stream has no size".to_owned()),
    }
}

} // verus!
