use mantle_core::log::parse_log;

#[test]
fn test_parse_log() {
    let topics = vec![b"hello", b"world"];
    let num_topics_bytes = (topics.len() as u32).to_le_bytes();
    let topic_lens: Vec<Vec<u8>> =
        topics.iter().map(|t| (t.len() as u32).to_le_bytes().to_vec()).collect();
    let topics_bytes: Vec<u8> = num_topics_bytes
        .iter()
        .chain(topics.iter().enumerate().flat_map(|(i, t)| topic_lens[i].iter().chain(t.iter())))
        .copied()
        .collect();

    let data = b"I bid thee hello!";
    let data_len = (data.len() as u32).to_le_bytes();

    let log: Vec<u8> = std::iter::empty()
        .chain(topics_bytes.iter())
        .chain(data_len.iter())
        .chain(data.iter())
        .copied()
        .collect();

    let (parsed_topics, parsed_data) = parse_log(&log).unwrap();
    let expected: Vec<Vec<u8>> = topics.iter().map(|t| t.to_vec()).collect();
    assert_eq!(parsed_topics, expected);
    assert_eq!(parsed_data, data.to_vec());
}

#[test]
fn parse_log_refuses_truncated_buffers() {
    assert_eq!(parse_log(&[]), None);
    assert_eq!(parse_log(&[1, 0, 0]), None);
    // One topic announced, none present.
    assert_eq!(parse_log(&[1, 0, 0, 0]), None);
    // A topic longer than the buffer.
    assert_eq!(parse_log(&[1, 0, 0, 0, 9, 0, 0, 0, 1]), None);
    // Topics but no data length.
    assert_eq!(parse_log(&[0, 0, 0, 0]), None);
}

#[test]
fn parse_log_ignores_trailing_bytes() {
    let buf = [0u8, 0, 0, 0, 2, 0, 0, 0, 7, 8, 99, 99];
    assert_eq!(parse_log(&buf), Some((Vec::new(), vec![7, 8])));
    let huge_count = [0xff, 0xff, 0xff, 0xff, 0, 0, 0, 0];
    assert_eq!(parse_log(&huge_count), None);
}
