use sound_editor::error::AudioError;
use sound_editor::pcm::PcmBuffer;
use sound_editor::segmenter::{detect, remove, PassMode, Progress, SilencePass};
use sound_editor::silence::{SilenceParams, Threshold};

fn mono(samples: Vec<i16>, sample_rate: u32) -> PcmBuffer {
    PcmBuffer { samples, channel_count: 1, sample_rate }
}

fn settings(numer: u32, denom: u32, min_silence_ms: usize) -> SilenceParams {
    SilenceParams { threshold: Threshold { numer, denom }, min_silence_ms }
}

/// `frames` frames of a square wave of the given amplitude, as a share of full scale.
fn tone(frames: usize, amplitude: f32) -> Vec<i16> {
    let peak = (amplitude * 32767.0) as i16;
    (0..frames).map(|i| if i % 2 == 0 { peak } else { -peak }).collect()
}

fn speech_with_pause(pause_frames: usize) -> Vec<i16> {
    let mut samples = tone(8000, 0.5);
    samples.extend(tone(pause_frames, 0.001));
    samples.extend(tone(24000 - 8000 - pause_frames, 0.5));
    samples
}

#[test]
fn long_pause_is_found_and_cut() {
    let buffer = mono(speech_with_pause(12000), 8000);
    let params = settings(1, 100, 1000);
    assert_eq!(buffer.samples.len(), 24000);
    assert_eq!(detect(&buffer, &params), Ok(vec![(8000, 20000)]));
    let shorter = remove(&buffer, &params).unwrap();
    assert_eq!(shorter.samples.len(), 12000);
    let mut expected = buffer.samples[..8000].to_vec();
    expected.extend_from_slice(&buffer.samples[20000..]);
    assert_eq!(shorter.samples, expected);
    assert_eq!(shorter.channel_count, 1);
    assert_eq!(shorter.sample_rate, 8000);
}

#[test]
fn short_pause_is_left_alone() {
    let buffer = mono(speech_with_pause(2400), 8000);
    let params = settings(1, 100, 1000);
    assert_eq!(detect(&buffer, &params), Ok(vec![]));
    let same = remove(&buffer, &params).unwrap();
    assert_eq!(same.samples, buffer.samples);
}

#[test]
fn run_of_exactly_the_minimum_is_cut() {
    // 10 ms at 8000 Hz are 80 frames
    let mut samples = tone(5, 0.5);
    samples.extend(vec![0i16; 80]);
    samples.extend(tone(5, 0.5));
    let buffer = mono(samples, 8000);
    let params = settings(1, 100, 10);
    assert_eq!(detect(&buffer, &params), Ok(vec![(5, 85)]));
    let shorter = remove(&buffer, &params).unwrap();
    assert_eq!(shorter.samples, tone(5, 0.5).into_iter().chain(tone(5, 0.5)).collect::<Vec<i16>>());
}

#[test]
fn run_one_frame_short_is_kept_verbatim() {
    let mut samples = tone(5, 0.5);
    samples.extend((0..79).map(|i| (i % 7) as i16));
    samples.extend(tone(5, 0.5));
    let buffer = mono(samples, 8000);
    let params = settings(1, 100, 10);
    assert_eq!(detect(&buffer, &params), Ok(vec![]));
    assert_eq!(remove(&buffer, &params).unwrap().samples, buffer.samples);
}

#[test]
fn threshold_of_zero_keeps_everything() {
    let buffer = mono(vec![0, 0, 0, 5, 0, 0, 0, 0, -3, 0], 1000);
    let params = settings(0, 1, 1);
    assert_eq!(detect(&buffer, &params), Ok(vec![]));
    assert_eq!(remove(&buffer, &params).unwrap().samples, buffer.samples);
}

#[test]
fn removal_never_lengthens() {
    let buffer = mono(vec![900, 0, 0, 0, 900, 0, 900, 0, 0, 0, 0], 1000);
    for min in 0..6 {
        let shorter = remove(&buffer, &settings(1, 100, min)).unwrap();
        assert!(shorter.samples.len() <= buffer.samples.len());
    }
}

#[test]
fn second_removal_changes_nothing() {
    let buffer = mono(vec![0, 900, 0, 0, 0, 900, 0, 0, 900, 0, 0, 0, 0, 900, 0], 1000);
    for min in 0..6 {
        let params = settings(1, 100, min);
        let once = remove(&buffer, &params).unwrap();
        let twice = remove(&once, &params).unwrap();
        assert_eq!(twice.samples, once.samples);
        assert_eq!(detect(&once, &params), Ok(vec![]));
    }
}

#[test]
fn removal_cuts_exactly_what_detection_reports() {
    let buffer = PcmBuffer {
        samples: vec![0, 0, 900, 900, 0, 1, 1, 0, 0, 0, 900, -900, 2, 0, 0, 0, 0, 0, 900, 900, 0, 0],
        channel_count: 2,
        sample_rate: 1000,
    };
    let params = settings(1, 100, 2);
    let found = detect(&buffer, &params).unwrap();
    assert_eq!(found, vec![(4, 10), (12, 18)]);
    let mut expected: Vec<i16> = Vec::new();
    for (at, sample) in buffer.samples.iter().enumerate() {
        if !found.iter().any(|&(start, end)| start <= at && at < end) {
            expected.push(*sample);
        }
    }
    assert_eq!(remove(&buffer, &params).unwrap().samples, expected);
    assert_eq!(expected, vec![0, 0, 900, 900, 900, -900, 900, 900, 0, 0]);
}

#[test]
fn trailing_run_is_found_and_cut() {
    let buffer = mono(vec![900, 900, 0, 0, 0], 1000);
    let params = settings(1, 100, 3);
    assert_eq!(detect(&buffer, &params), Ok(vec![(2, 5)]));
    assert_eq!(remove(&buffer, &params).unwrap().samples, vec![900, 900]);
}

#[test]
fn leading_run_is_found_and_cut() {
    let buffer = mono(vec![0, 0, 0, 900, 0], 1000);
    let params = settings(1, 100, 3);
    assert_eq!(detect(&buffer, &params), Ok(vec![(0, 3)]));
    assert_eq!(remove(&buffer, &params).unwrap().samples, vec![900, 0]);
}

#[test]
fn wholly_silent_buffer_is_one_run() {
    let buffer = mono(vec![0; 7], 1000);
    assert_eq!(detect(&buffer, &settings(1, 100, 7)), Ok(vec![(0, 7)]));
    assert_eq!(remove(&buffer, &settings(1, 100, 7)).unwrap().samples, Vec::<i16>::new());
    assert_eq!(detect(&buffer, &settings(1, 100, 8)), Ok(vec![]));
}

#[test]
fn minimum_of_zero_cuts_every_run() {
    let buffer = mono(vec![0, 900, 0, 0, 900, 900, 0], 1000);
    let params = settings(1, 100, 0);
    assert_eq!(detect(&buffer, &params), Ok(vec![(0, 1), (2, 4), (6, 7)]));
    assert_eq!(remove(&buffer, &params).unwrap().samples, vec![900, 900, 900]);
}

#[test]
fn empty_buffer_has_no_silence() {
    let buffer = mono(Vec::new(), 8000);
    assert_eq!(detect(&buffer, &settings(1, 100, 0)), Ok(vec![]));
    assert_eq!(detect(&buffer, &settings(1, 100, 1000)), Ok(vec![]));
    assert_eq!(remove(&buffer, &settings(1, 100, 1000)).unwrap().samples, Vec::<i16>::new());
}

#[test]
fn incomplete_last_frame_is_corrupt() {
    let buffer = PcmBuffer { samples: vec![0, 0, 0], channel_count: 2, sample_rate: 8000 };
    assert_eq!(detect(&buffer, &settings(1, 100, 10)), Err(AudioError::CorruptAudioData));
    assert_eq!(remove(&buffer, &settings(1, 100, 10)).err(), Some(AudioError::CorruptAudioData));
    assert!(SilencePass::new(&buffer, settings(1, 100, 10), PassMode::Detect).is_err());
}

#[test]
fn sample_rate_below_one_frame_per_millisecond_is_invalid() {
    let buffer = mono(vec![0; 10], 999);
    assert_eq!(detect(&buffer, &settings(1, 100, 10)), Err(AudioError::InvalidInput));
    assert_eq!(remove(&buffer, &settings(1, 100, 10)).err(), Some(AudioError::InvalidInput));
    let slowest = mono(vec![0; 10], 1000);
    assert_eq!(detect(&slowest, &settings(1, 100, 10)), Ok(vec![(0, 10)]));
}

#[test]
fn no_channels_is_invalid() {
    let buffer = PcmBuffer { samples: vec![0; 4], channel_count: 0, sample_rate: 8000 };
    assert_eq!(detect(&buffer, &settings(1, 100, 10)), Err(AudioError::InvalidInput));
}

#[test]
fn threshold_outside_unit_interval_is_invalid() {
    let buffer = mono(vec![0; 10], 8000);
    assert_eq!(detect(&buffer, &settings(1, 1, 1)), Err(AudioError::InvalidInput));
    assert_eq!(detect(&buffer, &settings(3, 2, 1)), Err(AudioError::InvalidInput));
    assert_eq!(detect(&buffer, &settings(0, 0, 1)), Err(AudioError::InvalidInput));
    assert!(!Threshold { numer: 1, denom: 1 }.is_valid());
    assert!(Threshold { numer: 0, denom: 1 }.is_valid());
}

#[test]
fn invalid_settings_come_before_corrupt_data() {
    let buffer = PcmBuffer { samples: vec![0, 0, 0], channel_count: 2, sample_rate: 500 };
    assert_eq!(detect(&buffer, &settings(1, 100, 10)), Err(AudioError::InvalidInput));
}

#[test]
fn comparison_with_threshold_is_strict() {
    // one percent of full scale is 327.67
    let params = settings(1, 100, 1);
    assert_eq!(detect(&mono(vec![327], 1000), &params), Ok(vec![(0, 1)]));
    assert_eq!(detect(&mono(vec![-327], 1000), &params), Ok(vec![(0, 1)]));
    assert_eq!(detect(&mono(vec![328], 1000), &params), Ok(vec![]));
    assert_eq!(detect(&mono(vec![-328], 1000), &params), Ok(vec![]));
    // a level equal to the threshold counts as sound
    let exact = settings(100, 32767, 1);
    assert_eq!(detect(&mono(vec![100], 1000), &exact), Ok(vec![]));
    assert_eq!(detect(&mono(vec![99], 1000), &exact), Ok(vec![(0, 1)]));
}

#[test]
fn most_negative_sample_lies_beyond_full_scale() {
    // 32767 / 32768 of full scale is 32766.00003...
    let params = settings(32767, 32768, 1);
    assert_eq!(detect(&mono(vec![32766], 1000), &params), Ok(vec![(0, 1)]));
    assert_eq!(detect(&mono(vec![32767], 1000), &params), Ok(vec![]));
    assert_eq!(detect(&mono(vec![i16::MIN], 1000), &params), Ok(vec![]));
    assert_eq!(detect(&mono(vec![-32766], 1000), &params), Ok(vec![(0, 1)]));
}

#[test]
fn level_of_a_frame_is_the_mean_over_its_channels() {
    let params = settings(100, 32767, 1);
    let stereo = |left: i16, right: i16| PcmBuffer {
        samples: vec![left, right],
        channel_count: 2,
        sample_rate: 1000,
    };
    // mean 99.5 is below 100, mean 100 is not
    assert_eq!(detect(&stereo(199, 0), &params), Ok(vec![(0, 2)]));
    assert_eq!(detect(&stereo(-150, 49), &params), Ok(vec![(0, 2)]));
    assert_eq!(detect(&stereo(200, 0), &params), Ok(vec![]));
    assert_eq!(detect(&stereo(100, -100), &params), Ok(vec![]));
}

#[test]
fn minimum_duration_rounds_down_to_frames() {
    // 3 ms at 1500 Hz are 4.5 frames, which counts as 4
    let buffer = mono(vec![900, 0, 0, 0, 0, 900, 0, 0, 0, 900], 1500);
    assert_eq!(detect(&buffer, &settings(1, 100, 3)), Ok(vec![(1, 5)]));
    // 4 ms are 6 frames
    assert_eq!(detect(&buffer, &settings(1, 100, 4)), Ok(vec![]));
    // 2 ms are 3 frames
    assert_eq!(detect(&buffer, &settings(1, 100, 2)), Ok(vec![(1, 5), (6, 9)]));
}

#[test]
fn huge_minimum_duration_does_not_overflow() {
    let buffer = mono(vec![0; 16], 4_000_000_000);
    assert_eq!(detect(&buffer, &settings(1, 100, usize::MAX)), Ok(vec![]));
}

#[test]
fn intervals_are_in_sample_indices() {
    let buffer = PcmBuffer {
        samples: vec![900, 900, 900, 0, 0, 0, 1, 1, 1, 900, 900, 900],
        channel_count: 3,
        sample_rate: 1000,
    };
    assert_eq!(detect(&buffer, &settings(1, 100, 2)), Ok(vec![(3, 9)]));
    assert_eq!(
        remove(&buffer, &settings(1, 100, 2)).unwrap().samples,
        vec![900, 900, 900, 900, 900, 900]
    );
}

#[test]
fn pass_in_steps_reports_progress_and_agrees_with_one_shot() {
    let buffer = mono(speech_with_pause(12000), 8000);
    let params = settings(1, 100, 1000);
    let mut pass = SilencePass::new(&buffer, params, PassMode::Remove).unwrap();
    assert_eq!(pass.progress(), Progress { done: 0, total: 24000 });
    assert!(!pass.is_finished());
    assert_eq!(pass.step(10000), Progress { done: 10000, total: 24000 });
    assert_eq!(pass.step(0), Progress { done: 10000, total: 24000 });
    assert_eq!(pass.step(13999), Progress { done: 23999, total: 24000 });
    assert!(!pass.is_finished());
    assert_eq!(pass.step(usize::MAX), Progress { done: 24000, total: 24000 });
    assert!(pass.is_finished());
    let output = pass.finish();
    assert_eq!(output.intervals, vec![(8000, 20000)]);
    assert_eq!(output.samples, Some(remove(&buffer, &params).unwrap().samples));
}

#[test]
fn pass_finishes_from_any_point() {
    let buffer = mono(vec![0, 0, 900, 0, 0, 0, 900, 0, 0], 1000);
    let params = settings(1, 100, 2);
    for first in 0..10 {
        let mut pass = SilencePass::new(&buffer, params, PassMode::Detect).unwrap();
        pass.step(first);
        let output = pass.finish();
        assert_eq!(output.intervals, vec![(0, 2), (3, 6), (7, 9)]);
        assert_eq!(output.samples, None);
    }
}

#[test]
fn progress_in_thousandths() {
    assert_eq!(Progress { done: 0, total: 24000 }.permille(), 0);
    assert_eq!(Progress { done: 10000, total: 24000 }.permille(), 416);
    assert_eq!(Progress { done: 23999, total: 24000 }.permille(), 999);
    assert_eq!(Progress { done: 24000, total: 24000 }.permille(), 1000);
    assert_eq!(Progress { done: 0, total: 0 }.permille(), 0);
    assert_eq!(Progress { done: 7, total: 0 }.permille(), 0);
    assert_eq!(Progress { done: 7, total: 3 }.permille(), 1000);
    assert_eq!(Progress { done: usize::MAX - 1, total: usize::MAX }.permille(), 999);
}

#[test]
fn buffer_shape_is_checked() {
    let good = PcmBuffer { samples: vec![0; 6], channel_count: 2, sample_rate: 8000 };
    assert_eq!(good.validate(), Ok(()));
    assert_eq!(good.frame_count(), 3);
    let odd = PcmBuffer { samples: vec![0; 5], channel_count: 2, sample_rate: 8000 };
    assert_eq!(odd.validate(), Err(AudioError::CorruptAudioData));
    assert_eq!(odd.frame_count(), 2);
    let flat = PcmBuffer { samples: vec![0; 5], channel_count: 0, sample_rate: 8000 };
    assert_eq!(flat.validate(), Err(AudioError::InvalidInput));
    assert_eq!(flat.frame_count(), 0);
    let still = PcmBuffer { samples: vec![0; 6], channel_count: 2, sample_rate: 0 };
    assert_eq!(still.validate(), Err(AudioError::InvalidInput));
}
