use pxl::error::Error;
use pxl::speaker::{
    conversion_for, interleave_stereo, select_output_format, ConversionPath, FormatRange,
    SampleFormat, Speaker,
};

fn stereo(min: u32, max: u32, data_type: SampleFormat) -> FormatRange {
    FormatRange { channels: 2, min_sample_rate: min, max_sample_rate: max, data_type }
}

#[test]
fn samples_played_accumulates_exactly() {
    let formats = vec![stereo(44_100, 96_000, SampleFormat::F32)];
    let mut speaker = Speaker::new(Some(&formats)).unwrap();
    assert_eq!(speaker.total_samples_played(), 0);
    // three callbacks demanding 128, 32 and 7 samples
    let (pos1, count1) = speaker.begin_callback(256);
    assert_eq!((pos1, count1), (0, 128));
    let (pos2, count2) = speaker.begin_callback(64);
    assert_eq!((pos2, count2), (128, 32));
    let (pos3, count3) = speaker.begin_callback(14);
    assert_eq!((pos3, count3), (160, 7));
    assert_eq!(speaker.total_samples_played(), 128 + 32 + 7);
    // positions strictly increase and are never revisited
    assert!(pos1 < pos2 && pos2 < pos3);
}

#[test]
fn selection_prefers_float_over_integer_formats() {
    // the device offers only a 16-bit and a 32-bit-float format at the
    // target rate: the heuristic deterministically picks the float one
    let formats = vec![
        stereo(44_100, 48_000, SampleFormat::I16),
        stereo(44_100, 96_000, SampleFormat::F32),
    ];
    let chosen = select_output_format(&formats).unwrap();
    assert_eq!(chosen.data_type, SampleFormat::F32);
    assert_eq!(conversion_for(chosen.data_type), ConversionPath::FloatPassthrough);
}

#[test]
fn selection_falls_back_to_integer_scaling() {
    let formats = vec![
        stereo(8_000, 44_100, SampleFormat::F32),  // does not reach 48 kHz
        stereo(44_100, 48_000, SampleFormat::U16),
        stereo(44_100, 48_000, SampleFormat::I16),
    ];
    let chosen = select_output_format(&formats).unwrap();
    assert_eq!(chosen.data_type, SampleFormat::I16);
    assert_eq!(conversion_for(chosen.data_type), ConversionPath::SignedScaling);
}

#[test]
fn selection_is_stable_between_equal_ranks() {
    // of two equally ranked formats the first listed wins
    let formats = vec![
        stereo(48_000, 48_000, SampleFormat::I16),
        stereo(44_100, 96_000, SampleFormat::I16),
    ];
    let chosen = select_output_format(&formats).unwrap();
    assert_eq!(chosen, formats[0]);
}

#[test]
fn no_device_and_no_rate_are_distinct_errors() {
    assert!(matches!(
        Speaker::new(None),
        Err(Error::AudioOutputDeviceInitialization)
    ));
    let mono_only = vec![FormatRange {
        channels: 1,
        min_sample_rate: 44_100,
        max_sample_rate: 96_000,
        data_type: SampleFormat::F32,
    }];
    assert!(matches!(
        Speaker::new(Some(&mono_only)),
        Err(Error::AudioOutputDoesNotSupport48khzSampleRate)
    ));
}

#[test]
fn interleaving_lays_pairs_out_left_then_right() {
    let samples: Vec<(f32, f32)> = vec![(0.5, -0.5), (0.25, 0.75), (1.0, -1.0)];
    let flat = interleave_stereo(&samples);
    assert_eq!(flat, vec![0.5, -0.5, 0.25, 0.75, 1.0, -1.0]);
}
