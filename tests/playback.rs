use glyphcast::palette::Palette;
use glyphcast::schedule::{simulate_playback, Action, Scheduler};
use glyphcast::session::{Phase, PlaybackConfig, Session, SessionError, SessionEvent};
use std::io::Cursor;

fn png_bytes(width: u32, height: u32, rgb: Vec<u8>) -> Vec<u8> {
    let img = image::RgbImage::from_raw(width, height, rgb).unwrap();
    let mut out = Cursor::new(Vec::new());
    image::DynamicImage::ImageRgb8(img)
        .write_to(&mut out, image::ImageOutputFormat::Png)
        .unwrap();
    out.into_inner()
}

fn palette_of_len(n: usize) -> Palette {
    let glyphs: Vec<char> = (0..n).map(|i| char::from_u32(0x21 + i as u32).unwrap()).collect();
    Palette::new(glyphs).unwrap()
}

#[test]
fn scheduler_waits_out_the_target() {
    let mut s = Scheduler::new(3, 33);
    assert_eq!(s.next_action(0), Action::Present(0));
    s.record(true);
    assert_eq!(s.next_action(10), Action::Wait(23));
    assert_eq!(s.next_action(33), Action::Present(1));
    s.record(false);
    assert_eq!(s.next_action(40), Action::Wait(26));
    assert_eq!(s.next_action(500), Action::Present(2));
    s.record(true);
    assert_eq!(s.next_action(500), Action::Finished);
    assert!(s.is_finished());
    assert_eq!((s.displayed, s.dropped), (2, 1));
    assert_eq!(s.target_offset_ms(2), 66);
}

#[test]
fn scheduler_never_presents_early() {
    let mut s = Scheduler::new(40, 33);
    let mut clock = 0u64;
    loop {
        match s.next_action(clock) {
            Action::Wait(d) => clock += d,
            Action::Present(i) => {
                assert!(clock >= i as u64 * 33);
                s.record(true);
                clock += (i as u64 * 7) % 50;
            }
            Action::Finished => break,
        }
    }
    assert_eq!(s.displayed, 40);
}

#[test]
fn checked_scheduler_refuses_overflow() {
    assert!(Scheduler::checked_new(3, u64::MAX).is_none());
    assert!(Scheduler::checked_new(1, u64::MAX).is_some());
    assert!(Scheduler::checked_new(0, u64::MAX).is_some());
}

#[test]
fn black_frames_play_on_schedule() {
    let cfg = PlaybackConfig::new(4, 3, 30, palette_of_len(70)).unwrap();
    let interval = cfg.frame_interval_ms();
    assert_eq!(interval, 33);
    let frames: Vec<Vec<u8>> = (0..3).map(|_| png_bytes(4, 3, vec![0; 36])).collect();
    let log = simulate_playback(&frames, &cfg.palette, interval, &vec![0, 0, 0]);
    assert_eq!(log.len(), 3);
    let first = cfg.palette.glyph(0);
    for (i, p) in log.iter().enumerate() {
        assert_eq!(p.index, i);
        assert_eq!(p.glyphs.rows, vec![vec![first; 4]; 3]);
        assert!(p.at_ms >= i as u64 * 33);
    }
    assert!(log[2].at_ms - log[0].at_ms >= 66);
    assert_eq!(log.iter().map(|p| p.at_ms).collect::<Vec<_>>(), vec![0, 33, 66]);
}

#[test]
fn slow_frames_run_late_without_skipping() {
    let frames: Vec<Vec<u8>> = (0..3).map(|_| png_bytes(1, 1, vec![255, 255, 255])).collect();
    let log = simulate_playback(&frames, &Palette::standard(), 33, &vec![50, 50, 50]);
    assert_eq!(log.iter().map(|p| p.at_ms).collect::<Vec<_>>(), vec![0, 50, 100]);
    assert_eq!(log[0].glyphs.rows, vec![vec![' ']]);
}

#[test]
fn corrupt_frame_is_dropped() {
    let mut frames: Vec<Vec<u8>> = (0..5).map(|v| png_bytes(2, 2, vec![v * 60; 12])).collect();
    frames[2] = b"corrupt".to_vec();
    let log = simulate_playback(&frames, &Palette::standard(), 33, &vec![1; 5]);
    assert_eq!(log.len(), 4);
    assert_eq!(log.iter().map(|p| p.index).collect::<Vec<_>>(), vec![0, 1, 3, 4]);
    assert_eq!(log[2].at_ms, 99);
}

#[test]
fn replay_gives_identical_frames() {
    let frames: Vec<Vec<u8>> = (0..4u8)
        .map(|v| png_bytes(3, 2, (0..18).map(|i| i * 13 + v * 40).collect()))
        .collect();
    let costs = vec![5, 40, 0, 12];
    let a = simulate_playback(&frames, &Palette::standard(), 33, &costs);
    let b = simulate_playback(&frames, &Palette::standard(), 33, &costs);
    assert_eq!(a.len(), b.len());
    for (x, y) in a.iter().zip(b.iter()) {
        assert_eq!((x.index, x.at_ms), (y.index, y.at_ms));
        assert_eq!(x.glyphs.rows, y.glyphs.rows);
    }
}

#[test]
fn session_completes_after_both_tasks() {
    let mut s = Session::new();
    assert_eq!(s.step(SessionEvent::Launch), Err(SessionError::OutOfOrder));
    assert_eq!(s.phase, Phase::Idle);
    s.step(SessionEvent::Arm).unwrap();
    assert_eq!(s.phase, Phase::Armed);
    s.step(SessionEvent::Launch).unwrap();
    assert_eq!(s.phase, Phase::Running);
    s.step(SessionEvent::VideoFinished).unwrap();
    assert!(!s.is_complete());
    assert_eq!(s.step(SessionEvent::VideoFinished), Err(SessionError::OutOfOrder));
    s.step(SessionEvent::AudioFinished).unwrap();
    assert!(s.is_complete());
    assert_eq!(s.step(SessionEvent::AudioFinished), Err(SessionError::OutOfOrder));
}

#[test]
fn config_needs_a_frame_rate() {
    assert!(PlaybackConfig::new(10, 10, 0, Palette::standard()).is_none());
    let c = PlaybackConfig::standard();
    assert_eq!((c.width, c.height, c.fps), (140, 52, 30));
    assert_eq!(c.frame_interval_ms(), 33);
    assert_eq!(c.palette.len(), 69);
}
