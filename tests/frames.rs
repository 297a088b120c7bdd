use anyml::FrameBuffer;

fn feed_all(delimiter: &[u8], bufs: &[&[u8]]) -> (Vec<Vec<u8>>, Vec<u8>) {
    let mut fb = FrameBuffer::new(delimiter);
    let mut frames = Vec::new();
    for b in bufs {
        frames.extend(fb.feed(b));
    }
    (frames, fb.take_rest())
}

#[test]
fn single_delivery_yields_complete_frames_and_carry() {
    let (frames, rest) = feed_all(b"\n\n", &[b"a\n\nbc\n\nde"]);
    assert_eq!(frames, vec![b"a".to_vec(), b"bc".to_vec()]);
    assert_eq!(rest, b"de".to_vec());
}

#[test]
fn chunking_transparency_over_every_two_way_split() {
    let bytes: &[u8] = b"event: x\ndata: 1\n\nevent: y\ndata: 2\n\n\n\nz";
    let (whole, whole_rest) = feed_all(b"\n\n", &[bytes]);
    for i in 0..=bytes.len() {
        let (frames, rest) = feed_all(b"\n\n", &[&bytes[..i], &bytes[i..]]);
        assert_eq!(frames, whole);
        assert_eq!(rest, whole_rest);
    }
}

#[test]
fn chunking_transparency_byte_by_byte() {
    let bytes: &[u8] = b"{\"a\":1}\n{\"b\":2}\n\n{\"c\"";
    let (whole, whole_rest) = feed_all(b"\n", &[bytes]);
    let pieces: Vec<&[u8]> = bytes.chunks(1).collect();
    let (frames, rest) = feed_all(b"\n", &pieces);
    assert_eq!(frames, whole);
    assert_eq!(rest, whole_rest);
    assert_eq!(
        whole,
        vec![b"{\"a\":1}".to_vec(), b"{\"b\":2}".to_vec(), Vec::<u8>::new()]
    );
    assert_eq!(whole_rest, b"{\"c\"".to_vec());
}

#[test]
fn delimiter_split_across_deliveries() {
    let (frames, rest) = feed_all(b"\n\n", &[b"abc\n", b"\ndef"]);
    assert_eq!(frames, vec![b"abc".to_vec()]);
    assert_eq!(rest, b"def".to_vec());
}

#[test]
fn frame_split_across_three_deliveries() {
    let (frames, rest) = feed_all(b"\n\n", &[b"ab", b"cd", b"ef\n\n"]);
    assert_eq!(frames, vec![b"abcdef".to_vec()]);
    assert!(rest.is_empty());
}

#[test]
fn empty_delivery_leaves_carry_alone() {
    let mut fb = FrameBuffer::new(b"\n\n");
    assert!(fb.feed(b"partial").is_empty());
    assert!(fb.feed(b"").is_empty());
    assert!(!fb.is_empty());
    assert_eq!(fb.feed(b"\n\n"), vec![b"partial".to_vec()]);
    assert!(fb.is_empty());
}

#[test]
fn consecutive_delimiters_yield_empty_frame() {
    let (frames, rest) = feed_all(b"\n", &[b"\n\n"]);
    assert_eq!(frames, vec![Vec::<u8>::new(), Vec::<u8>::new()]);
    assert!(rest.is_empty());
}
