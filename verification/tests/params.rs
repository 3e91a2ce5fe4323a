use tunefold::scope::{bar_place, BarPlace, BAND_ANCHORS, VISUAL_BARS};

fn rms_of(bands: [f32; 5]) -> f32 {
    bands.iter().sum::<f32>() / 5.0
}

#[test]
fn test_rms_helper_is_sane() {
    assert!((rms_of([0.0; 5]) - 0.0).abs() < 1e-6);
    assert!((rms_of([1.0; 5]) - 1.0).abs() < 1e-6);
}

#[test]
fn bars_stand_between_their_anchors() {
    for bar in 0..VISUAL_BARS {
        match bar_place(bar) {
            BarPlace::Head { num, den } => assert_eq!((num, den), (bar, BAND_ANCHORS[0])),
            BarPlace::Between { band, num, den } => {
                assert_eq!(BAND_ANCHORS[band] + num, bar);
                assert_eq!(BAND_ANCHORS[band] + den, BAND_ANCHORS[band + 1]);
            }
            BarPlace::Tail { num, den } => {
                assert_eq!(num, bar + 1 - BAND_ANCHORS[4]);
                assert_eq!(den, VISUAL_BARS - BAND_ANCHORS[4]);
            }
        }
    }
}
