use adplay::text::{find_byte, parse_u32, push_decimal, push_decimal_padded, strip_byte};
use adplay::timeline::{get_frame_info, parse_frame_rate, FrameTimeline, ProbeError};

#[test]
fn frame_info_from_the_decoder_answers() {
    let timeline = get_frame_info(b"100\n", b"25/1\n").expect("both answers are well formed");
    assert_eq!(timeline.total_frames(), 100);
    assert_eq!(timeline.rate_num(), 25);
    assert_eq!(timeline.rate_den(), 1);
}

#[test]
fn frame_info_reads_the_first_line_of_the_rate() {
    let timeline = get_frame_info(b"1\n2\n", b"30000/1001\n25/1\n").unwrap();
    assert_eq!(timeline.total_frames(), 12);
    assert_eq!(timeline.rate_num(), 30000);
    assert_eq!(timeline.rate_den(), 1001);
}

#[test]
fn frame_info_errors() {
    assert_eq!(get_frame_info(b"abc\n", b"25/1\n").err(), Some(ProbeError::FrameCount));
    assert_eq!(get_frame_info(b"", b"25/1\n").err(), Some(ProbeError::FrameCount));
    assert_eq!(get_frame_info(b"12 \n", b"25/1\n").err(), Some(ProbeError::FrameCount));
    assert_eq!(get_frame_info(b"4294967296", b"25/1\n").err(), Some(ProbeError::FrameCount));
    assert_eq!(get_frame_info(b"x", b"y").err(), Some(ProbeError::FrameCount));
    assert_eq!(get_frame_info(b"10", b"25\n").err(), Some(ProbeError::FrameRate));
    assert_eq!(get_frame_info(b"10", b"\n25/1\n").err(), Some(ProbeError::FrameRate));
    assert_eq!(get_frame_info(b"10", b"0/1").err(), Some(ProbeError::FrameRate));
    assert_eq!(get_frame_info(b"10", b"25/0").err(), Some(ProbeError::FrameRate));
    assert_eq!(get_frame_info(b"10", b"25/").err(), Some(ProbeError::FrameRate));
    assert_eq!(get_frame_info(b"10", b"/25").err(), Some(ProbeError::FrameRate));
    assert_eq!(get_frame_info(b"10", b"2.5/1").err(), Some(ProbeError::FrameRate));
}

#[test]
fn frame_rate_takes_the_first_two_fields() {
    assert_eq!(parse_frame_rate(b"25/1"), Some((25, 1)));
    assert_eq!(parse_frame_rate(b"30/2/7\n"), Some((30, 2)));
    assert_eq!(parse_frame_rate(b"+24/+1\nrest"), Some((24, 1)));
    assert_eq!(parse_frame_rate(b"24\n/1"), None);
    assert_eq!(parse_frame_rate(b""), None);
}

#[test]
fn timeline_needs_a_positive_rate() {
    assert!(FrameTimeline::new(10, 0, 1).is_none());
    assert!(FrameTimeline::new(10, 1, 0).is_none());
    assert!(FrameTimeline::new(0, 1, 1).is_some());
}

#[test]
fn seek_is_the_index_times_the_frame_time() {
    let timeline = FrameTimeline::new(100, 25, 1).unwrap();
    assert_eq!(timeline.seek(0), (0, 0));
    assert_eq!(timeline.seek(1), (0, 40_000));
    assert_eq!(timeline.seek(99), (3, 960_000));
    assert_eq!(timeline.seek_text(0), b"0.000000".to_vec());
    assert_eq!(timeline.seek_text(1), b"0.040000".to_vec());
    assert_eq!(timeline.seek_text(99), b"3.960000".to_vec());
    let ntsc = FrameTimeline::new(100, 30000, 1001).unwrap();
    assert_eq!(ntsc.seek(30), (1, 1_000));
    assert_eq!(ntsc.seek_text(30), b"1.001000".to_vec());
    assert_eq!(ntsc.seek(1), (0, 33_366));
    let slow = FrameTimeline::new(100, 1, u32::MAX).unwrap();
    assert_eq!(slow.seek(u32::MAX), (18_446_744_065_119_617_025, 0));
}

#[test]
fn parse_u32_agrees_with_the_standard_library() {
    let inputs: [&str; 22] = [
        "", "+", "-", "0", "+0", "-0", "7", "+7", "-7", "007", "4294967295", "4294967296",
        "+4294967295", "99999999999999999999999999", "00000000000000000000000000000012", " 1",
        "1 ", "1\n", "12a", "a12", "1+2", "++1",
    ];
    for input in inputs {
        assert_eq!(parse_u32(input.as_bytes()), input.parse::<u32>().ok(), "{:?}", input);
    }
    assert_eq!(parse_u32(&[0x31, 0xff]), None);
}

#[test]
fn decimal_digits_agree_with_the_standard_library() {
    for n in [0u64, 1, 9, 10, 11, 99, 100, 255, 4_294_967_295, u64::MAX] {
        let mut out = b"x".to_vec();
        push_decimal(&mut out, n);
        assert_eq!(out, format!("x{}", n).into_bytes());
        let mut padded = Vec::new();
        push_decimal_padded(&mut padded, n, 6);
        assert_eq!(padded, format!("{:06}", n).into_bytes());
    }
    let mut out = Vec::new();
    push_decimal_padded(&mut out, 42, 0);
    assert_eq!(out, b"42".to_vec());
}

#[test]
fn find_and_strip() {
    assert_eq!(find_byte(b"ab/cd/ef", b'/'), 2);
    assert_eq!(find_byte(b"abc", b'/'), 3);
    assert_eq!(find_byte(b"", b'/'), 0);
    assert_eq!(find_byte(b"/", b'/'), 0);
    assert_eq!(strip_byte(b"\n1\n\n2\n", b'\n'), b"12".to_vec());
    assert_eq!(strip_byte(b"", b'\n'), Vec::<u8>::new());
    assert_eq!(strip_byte(b"abc", b'\n'), b"abc".to_vec());
}
