use ircnvim::framer::{to_wire, Framer, FramingError, Step, BUFFER_SIZE};

fn frames_of_chunks(chunks: &[&[u8]]) -> (Vec<Vec<u8>>, usize) {
    let mut framer = Framer::new();
    let mut frames = Vec::new();
    for chunk in chunks {
        framer.feed(chunk).unwrap();
        frames.extend(framer.drain());
    }
    (frames, framer.len())
}

#[test]
fn two_pings_in_one_read() {
    let (frames, left) = frames_of_chunks(&[b"PING :x\r\nPING :y\r\n"]);
    assert_eq!(frames, vec![b"PING :x".to_vec(), b"PING :y".to_vec()]);
    assert_eq!(left, 0);
}

#[test]
fn two_pings_cut_anywhere() {
    let stream = b"PING :x\r\nPING :y\r\n";
    for cut in 0..=stream.len() {
        let (frames, left) = frames_of_chunks(&[&stream[..cut], &stream[cut..]]);
        assert_eq!(frames, vec![b"PING :x".to_vec(), b"PING :y".to_vec()]);
        assert_eq!(left, 0);
    }
    for first in 0..=stream.len() {
        for second in first..=stream.len() {
            let (frames, left) =
                frames_of_chunks(&[&stream[..first], &stream[first..second], &stream[second..]]);
            assert_eq!(frames, vec![b"PING :x".to_vec(), b"PING :y".to_vec()]);
            assert_eq!(left, 0);
        }
    }
}

#[test]
fn two_pings_byte_by_byte() {
    let stream = b"PING :x\r\nPING :y\r\n";
    let chunks: Vec<&[u8]> = stream.chunks(1).collect();
    let (frames, left) = frames_of_chunks(&chunks);
    assert_eq!(frames, vec![b"PING :x".to_vec(), b"PING :y".to_vec()]);
    assert_eq!(left, 0);
}

#[test]
fn a_frame_that_is_not_whole_waits() {
    let mut framer = Framer::new();
    framer.feed(b"PING :x\r").unwrap();
    assert_eq!(framer.next_frame(), None);
    assert_eq!(framer.len(), 8);
    framer.feed(b"\nrest").unwrap();
    assert_eq!(framer.next_frame(), Some(b"PING :x".to_vec()));
    assert_eq!(framer.next_frame(), None);
    assert_eq!(framer.len(), 4);
    framer.feed(b"\n\r\r\n").unwrap();
    assert_eq!(framer.next_frame(), Some(b"rest\n\r".to_vec()));
    assert_eq!(framer.len(), 0);
    framer.feed(b"\r\n").unwrap();
    assert_eq!(framer.next_frame(), Some(Vec::new()));
}

#[test]
fn overflow_is_refused() {
    let mut framer = Framer::new();
    let full = vec![b'a'; BUFFER_SIZE];
    assert_eq!(framer.feed(&vec![b'a'; BUFFER_SIZE + 1]), Err(FramingError::Overflow));
    assert_eq!(framer.len(), 0);
    assert_eq!(framer.feed(&full), Ok(()));
    assert_eq!(framer.len(), 512);
    assert_eq!(framer.feed(b"b"), Err(FramingError::Overflow));
    assert_eq!(framer.len(), 512);
    assert_eq!(framer.feed(b""), Ok(()));
    match framer.step() {
        Step::Overflow => {}
        _ => panic!("the buffer is full"),
    }
}

#[test]
fn steps_of_a_framer() {
    let mut framer = Framer::new();
    match framer.step() {
        Step::Read(room) => assert_eq!(room, 512),
        _ => panic!("nothing is held"),
    }
    framer.feed(b"PING :x\r\nPI").unwrap();
    match framer.step() {
        Step::Frame(frame) => assert_eq!(frame, b"PING :x".to_vec()),
        _ => panic!("a frame is whole"),
    }
    match framer.step() {
        Step::Read(room) => assert_eq!(room, 510),
        _ => panic!("no frame is whole"),
    }
}

#[test]
fn lines_for_the_server_end_with_cr_lf() {
    assert_eq!(to_wire(b"PONG"), b"PONG\r\n".to_vec());
    assert_eq!(to_wire(b""), b"\r\n".to_vec());
}

#[test]
fn drain_takes_every_whole_frame() {
    let mut framer = Framer::new();
    framer.feed(b"a\r\n\r\nb\rc\r\nd\r").unwrap();
    assert_eq!(framer.drain(), vec![b"a".to_vec(), Vec::new(), b"b\rc".to_vec()]);
    assert_eq!(framer.len(), 2);
    assert_eq!(framer.drain(), Vec::<Vec<u8>>::new());
    framer.feed(b"\n").unwrap();
    assert_eq!(framer.drain(), vec![b"d".to_vec()]);
    assert_eq!(framer.len(), 0);
}
