use midiplot::GeometryConfig;
use midiplot::NoteEvent;
use midiplot::Rect;
use midiplot::map_note;

fn reference_calibration() -> GeometryConfig {
    // Scale 0.16 device units per millisecond, kept as the rational 16/100.
    GeometryConfig { scale_num: 16, scale_den: 100, row_base: 160, row_height: 84, pitch_min: 20 }
}

#[test]
fn reference_rectangle() {
    let cfg = reference_calibration();
    let ev = NoteEvent { pitch: 60, onset_offset_ms: 0, duration_ms: 500 };
    let r = map_note(&cfg, &ev);
    assert_eq!(r, Rect { x: 0, y: 3520, width: 80, height: 84 });
}

#[test]
fn lowest_pitch_sits_on_the_base_row() {
    let cfg = reference_calibration();
    let ev = NoteEvent { pitch: 20, onset_offset_ms: 1000, duration_ms: 250 };
    let r = map_note(&cfg, &ev);
    assert_eq!(r, Rect { x: 160, y: 160, width: 40, height: 84 });
}

#[test]
fn scaling_rounds_to_nearest() {
    let cfg = reference_calibration();
    // 16 * 297 / 100 = 47.52 rounds to 48; 16 * 153 / 100 = 24.48 rounds to 24.
    let ev = NoteEvent { pitch: 21, onset_offset_ms: 297, duration_ms: 153 };
    let r = map_note(&cfg, &ev);
    assert_eq!(r.x, 48);
    assert_eq!(r.width, 24);
    assert_eq!(r.y, 244);
}

#[test]
fn x_and_width_never_decrease_with_time() {
    let cfg = reference_calibration();
    let mut last_x = 0;
    let mut last_w = 0;
    for t in 0..2000u64 {
        let ev = NoteEvent { pitch: 40, onset_offset_ms: t, duration_ms: t };
        let r = map_note(&cfg, &ev);
        assert!(r.x >= last_x);
        assert!(r.width >= last_w);
        last_x = r.x;
        last_w = r.width;
    }
}
