use adplay::ansi::{frame_origin_bytes, hide_cursor_bytes, show_cursor_bytes};
use adplay::config::{canvas_height, is_video, Failure};
use adplay::render::RenderMode;
use adplay::source::{audio_path, scaled_size, workspace_path, FrameRequest, FrameSource};
use adplay::timeline::FrameTimeline;

#[test]
fn canvas_height_prefers_the_size_asked_for() {
    assert_eq!(canvas_height(Some("30"), Some((80, 24))), Ok(30));
    assert_eq!(canvas_height(Some("0"), None), Ok(0));
    assert_eq!(canvas_height(Some("4294967295"), None), Ok(u32::MAX));
}

#[test]
fn canvas_height_rejects_a_size_that_is_no_number() {
    for bad in ["", "x", "-3", "3.5", "4294967296", " 3"] {
        assert_eq!(canvas_height(Some(bad), Some((80, 24))), Err(Failure::BadSize));
    }
    assert_eq!(Failure::BadSize.exit_status(), 7);
}

#[test]
fn canvas_height_from_the_terminal() {
    assert_eq!(canvas_height(None, Some((80, 24))), Ok(24));
    assert_eq!(canvas_height(None, Some((40, 30))), Ok(20));
    assert_eq!(canvas_height(None, Some((41, 30))), Ok(20));
    assert_eq!(canvas_height(None, Some((48, 24))), Ok(24));
    assert_eq!(canvas_height(None, Some((0, 24))), Ok(0));
    assert_eq!(canvas_height(None, Some((u16::MAX, u16::MAX))), Ok(32767));
}

#[test]
fn canvas_height_without_any_size() {
    assert_eq!(canvas_height(None, None), Err(Failure::NoCanvasSize));
    assert_eq!(Failure::NoCanvasSize.exit_status(), 3);
}

#[test]
fn every_failure_has_its_own_exit_status() {
    assert_eq!(Failure::NoSuchMedia.exit_status(), 1);
    assert_eq!(Failure::NoCanvasSize.exit_status(), 3);
    assert_eq!(Failure::UnknownFormat.exit_status(), 4);
    assert_eq!(Failure::BadSize.exit_status(), 7);
}

#[test]
fn video_files_are_known_by_their_extension() {
    for name in [
        "a.gif", "a.avi", "a.mp4", "a.mkv", "a.m2v", "a.ogg", "a.ogv", "a.aac", "a.aax", "a.mov",
        "a.wmv", "a.avchd", "a.m4p", "a.f4v", "a.swf", "a.yuv", "a.webm", "a.amv", "a.m4v",
        "a.3gp", "a.3g2", "a.nsv",
    ] {
        assert!(is_video(name), "{}", name);
    }
    assert!(is_video("dir.d/archive.tar.gif"));
    assert!(is_video("mp4"));
    assert!(is_video(".webm"));
}

#[test]
fn other_files_are_pictures() {
    for name in [
        "a.png", "a.bmp", "a.jpg", "a.MP4", "a.Gif", "a.mp4.png", "a.", "", "a.mp", "a.mp44",
        "a.web", "a.webmm", "a.avch", "a.avchdd", "a.gif/", "a.gif ", "gif.a", "\u{e9}.m\u{e9}v",
    ] {
        assert!(!is_video(name), "{}", name);
    }
}

#[test]
fn workspace_paths() {
    assert_eq!(workspace_path(), b".adplaytmp".to_vec());
    assert_eq!(audio_path(), b".adplaytmp/tmp.mp3".to_vec());
    assert_eq!(FrameSource::Streaming.frame_path(0), b".adplaytmp/tmp.bmp".to_vec());
    assert_eq!(FrameSource::Streaming.frame_path(77), b".adplaytmp/tmp.bmp".to_vec());
    assert_eq!(FrameSource::Prerender.frame_path(0), b".adplaytmp/0.bmp".to_vec());
    assert_eq!(FrameSource::Prerender.frame_path(77), b".adplaytmp/77.bmp".to_vec());
    assert_eq!(
        FrameSource::Prerender.frame_path(u32::MAX),
        b".adplaytmp/4294967295.bmp".to_vec()
    );
}

#[test]
fn frame_requests() {
    let timeline = FrameTimeline::new(100, 25, 1).unwrap();
    assert_eq!(
        FrameSource::Streaming.request(&timeline, 7),
        FrameRequest {
            seek: Some(b"0.280000".to_vec()),
            file: b".adplaytmp/tmp.bmp".to_vec(),
        }
    );
    assert_eq!(
        FrameSource::Prerender.request(&timeline, 7),
        FrameRequest { seek: None, file: b".adplaytmp/7.bmp".to_vec() }
    );
    assert_eq!(
        FrameSource::Prerender.extraction(&timeline, 7),
        FrameRequest {
            seek: Some(b"0.280000".to_vec()),
            file: b".adplaytmp/7.bmp".to_vec(),
        }
    );
    assert_eq!(
        FrameSource::Streaming.extraction(&timeline, 30),
        FrameSource::Streaming.request(&timeline, 30)
    );
}

#[test]
fn scaled_size_keeps_the_proportions() {
    assert_eq!(scaled_size(200, 100, 50, RenderMode::HalfPixel), Some((100, 50)));
    assert_eq!(scaled_size(200, 100, 50, RenderMode::Full), Some((100, 25)));
    assert_eq!(scaled_size(640, 480, 45, RenderMode::Full), Some((60, 22)));
    assert_eq!(scaled_size(1, 100, 50, RenderMode::HalfPixel), Some((0, 50)));
    assert_eq!(scaled_size(0, 7, 50, RenderMode::Full), Some((0, 25)));
    assert_eq!(scaled_size(10, 10, 0, RenderMode::Full), Some((0, 0)));
}

#[test]
fn scaled_size_has_its_limits() {
    assert_eq!(scaled_size(10, 0, 50, RenderMode::Full), None);
    assert_eq!(scaled_size(u32::MAX, 1, 2, RenderMode::HalfPixel), None);
    assert_eq!(
        scaled_size(u32::MAX, 2, 2, RenderMode::HalfPixel),
        Some((u32::MAX, 2))
    );
    assert_eq!(
        scaled_size(u32::MAX, u32::MAX, u32::MAX, RenderMode::Full),
        Some((u32::MAX, u32::MAX / 2))
    );
}

#[test]
fn cursor_control_sequences() {
    assert_eq!(hide_cursor_bytes(), b"\x1b[?25l".to_vec());
    assert_eq!(show_cursor_bytes(), b"\x1b[?25h".to_vec());
    assert_eq!(frame_origin_bytes(), b"\x1b[2H".to_vec());
}
