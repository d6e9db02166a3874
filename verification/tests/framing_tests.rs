use opendeck::framing::FrameAssembler;

fn chunks(a: &mut FrameAssembler, data: &[u8]) -> Vec<Vec<u8>> {
    a.push(data)
}

#[test]
fn whole_message_extracted() {
    let mut a = FrameAssembler::new();
    let out = chunks(&mut a, b"{\"key\":1}");
    assert_eq!(out, vec![b"{\"key\":1}".to_vec()]);
}

#[test]
fn split_reads_extract_same_messages() {
    let stream = b"{\"key\":1}{\"key\":0}{\"slider0\":42}";
    let mut whole = FrameAssembler::new();
    let expected = whole.push(stream);
    for split in 0..stream.len() {
        let mut a = FrameAssembler::new();
        let mut got = a.push(&stream[..split]);
        got.extend(a.push(&stream[split..]));
        assert_eq!(got, expected, "split at {split}");
    }
}

#[test]
fn many_splits_extract_same_messages() {
    let stream = b"{\"a\":1}{\"b\":2}{\"c\":3}";
    let mut whole = FrameAssembler::new();
    let expected = whole.push(stream);
    let mut a = FrameAssembler::new();
    let mut got = Vec::new();
    for byte in stream.iter() {
        got.extend(a.push(std::slice::from_ref(byte)));
    }
    assert_eq!(got, expected);
}

#[test]
fn incomplete_tail_stays_buffered() {
    let mut a = FrameAssembler::new();
    let out = a.push(b"{\"key\":1}{\"sli");
    assert_eq!(out, vec![b"{\"key\":1}".to_vec()]);
    let out = a.push(b"der0\":7}");
    assert_eq!(out, vec![b"{\"slider0\":7}".to_vec()]);
}

#[test]
fn empty_read_extracts_nothing() {
    let mut a = FrameAssembler::new();
    let out = a.push(b"");
    assert!(out.is_empty());
}
