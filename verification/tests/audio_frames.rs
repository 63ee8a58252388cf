use clarity::audio::{accumulate, FRAME_SAMPLES, SAMPLE_RATE};

#[test]
fn frame_is_twenty_milliseconds() {
    assert_eq!(FRAME_SAMPLES as u32 * 50, SAMPLE_RATE);
}

#[test]
fn short_input_is_kept_for_later() {
    let mut buf: Vec<f32> = Vec::new();
    let frames = accumulate(&mut buf, &[0.5f32; 500]);
    assert!(frames.is_empty());
    assert_eq!(buf.len(), 500);
}

#[test]
fn full_frames_come_out_in_order() {
    let mut buf: Vec<u32> = (0..100).collect();
    let new: Vec<u32> = (100..2100).collect();
    let frames = accumulate(&mut buf, &new);
    assert_eq!(frames.len(), 2);
    assert_eq!(frames[0], (0..960).collect::<Vec<u32>>());
    assert_eq!(frames[1], (960..1920).collect::<Vec<u32>>());
    assert_eq!(buf, (1920..2100).collect::<Vec<u32>>());
}

#[test]
fn exact_multiple_leaves_nothing() {
    let mut buf: Vec<f32> = Vec::new();
    let samples: Vec<f32> = (0..1920).map(|i| i as f32 / 1920.0).collect();
    let frames = accumulate(&mut buf, &samples);
    assert_eq!(frames.len(), 2);
    assert!(buf.is_empty());
    let joined: Vec<f32> = frames.concat();
    assert_eq!(joined, samples);
}

#[test]
fn successive_calls_lose_nothing() {
    let mut buf: Vec<u16> = Vec::new();
    let mut out: Vec<u16> = Vec::new();
    let mut next: u16 = 0;
    for chunk in [300usize, 700, 10, 1000, 2000] {
        let samples: Vec<u16> = (next..next + chunk as u16).collect();
        next += chunk as u16;
        for f in accumulate(&mut buf, &samples) {
            assert_eq!(f.len(), FRAME_SAMPLES);
            out.extend(f);
        }
        assert!(buf.len() < FRAME_SAMPLES);
    }
    out.extend(buf.iter().copied());
    assert_eq!(out, (0..next).collect::<Vec<u16>>());
}
