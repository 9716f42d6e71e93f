use prtsc::screencast::{select_stream, SelectedStream, StreamInfo};

#[test]
fn picks_the_first_stream() {
    let streams = vec![
        StreamInfo { node_id: 42, size: Some((1920, 1080)) },
        StreamInfo { node_id: 43, size: None },
    ];
    assert_eq!(
        select_stream(&streams),
        Ok(SelectedStream { node_id: 42, size: (1920, 1080) })
    );
}

#[test]
fn refuses_no_streams() {
    assert_eq!(select_stream(&Vec::new()), Err("portal returned no streams".to_string()));
}

#[test]
fn refuses_a_stream_without_a_size() {
    let streams = vec![
        StreamInfo { node_id: 1, size: None },
        StreamInfo { node_id: 2, size: Some((1, 1)) },
    ];
    assert_eq!(select_stream(&streams), Err("portal stream has no size".to_string()));
}
