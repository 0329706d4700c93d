use fantoch::run::frame::frame;
use fantoch::run::frame::unframe;
use fantoch::run::frame::MAX_PAYLOAD;
use fantoch::run::frame::PREFIX_LENGTH;

#[test]
fn a_frame_is_the_length_in_four_bytes_and_the_payload() {
    assert_eq!(frame(&vec![]), Some(vec![0, 0, 0, 0]));
    assert_eq!(frame(&vec![7]), Some(vec![0, 0, 0, 1, 7]));
    assert_eq!(frame(&vec![1, 2, 3]), Some(vec![0, 0, 0, 3, 1, 2, 3]));
    let long = vec![9u8; 0x0102_03];
    let framed = frame(&long).expect("a frame");
    assert_eq!(&framed[..4], &[0, 1, 2, 3]);
    assert_eq!(&framed[4..], &long[..]);
    assert_eq!(PREFIX_LENGTH, 4);
    assert_eq!(MAX_PAYLOAD, u32::MAX as usize);
}

#[test]
fn what_is_framed_comes_out_unchanged() {
    for payload in [vec![], vec![0], vec![255; 300], (0..=255u8).collect::<Vec<u8>>()] {
        let mut buffer = frame(&payload).expect("a frame");
        let whole = buffer.len();
        assert_eq!(unframe(&buffer), Some((payload.clone(), whole)));
        // whatever follows the frame
        buffer.extend_from_slice(&[1, 2, 3, 4, 5, 6]);
        assert_eq!(unframe(&buffer), Some((payload, whole)));
    }
}

#[test]
fn a_frame_that_is_not_whole_is_not_taken() {
    assert_eq!(unframe(&vec![]), None);
    assert_eq!(unframe(&vec![0, 0, 0]), None);
    assert_eq!(unframe(&vec![0, 0, 0, 2]), None);
    assert_eq!(unframe(&vec![0, 0, 0, 2, 8]), None);
    assert_eq!(unframe(&vec![0, 0, 0, 2, 8, 9]), Some((vec![8, 9], 6)));
    assert_eq!(unframe(&vec![0, 0, 1, 0, 8, 9]), None);
    assert_eq!(unframe(&vec![255, 255, 255, 255, 8, 9]), None);
}

#[test]
fn frames_are_taken_one_after_the_other() {
    let mut buffer = frame(&vec![1, 2]).unwrap();
    buffer.extend(frame(&vec![]).unwrap());
    buffer.extend(frame(&vec![3]).unwrap());
    let mut payloads = Vec::new();
    while let Some((payload, taken)) = unframe(&buffer) {
        payloads.push(payload);
        buffer.drain(..taken);
    }
    assert_eq!(payloads, vec![vec![1, 2], vec![], vec![3]]);
    assert!(buffer.is_empty());
}
