use sound_editor::audio::{
    play_samples, DeviceAction, PlaybackCursor, PlaybackSource, StreamState, WaveformData,
};
use sound_editor::error::AudioError;
use sound_editor::pcm::WavSpec;

fn layout(channels: u16, sample_rate: u32) -> WavSpec {
    WavSpec { channels, sample_rate, bits_per_sample: 16 }
}

#[test]
fn seek_beyond_the_end_clamps_to_the_end() {
    let mut cursor = PlaybackCursor::new();
    cursor.seek(11, 10);
    assert_eq!(cursor.frame, 10);
    cursor.seek(usize::MAX, 10);
    assert_eq!(cursor.frame, 10);
    cursor.seek(10, 10);
    assert_eq!(cursor.frame, 10);
    cursor.seek(3, 10);
    assert_eq!(cursor.frame, 3);
    cursor.seek(0, 10);
    assert_eq!(cursor.frame, 0);
    cursor.seek(5, 0);
    assert_eq!(cursor.frame, 0);
}

#[test]
fn seek_counts_in_frames_of_the_buffer() {
    let mut waveform = WaveformData::from_samples(vec![1, 2, 3, 4, 5, 6, 7]);
    waveform.seek(2, 2);
    assert_eq!(waveform.current_idx.frame, 2);
    waveform.seek(4, 2);
    assert_eq!(waveform.current_idx.frame, 3);
    waveform.seek(100, 1);
    assert_eq!(waveform.current_idx.frame, 7);
    waveform.seek(100, 0);
    assert_eq!(waveform.current_idx.frame, 0);
    assert_eq!(waveform.samples_raw, vec![1, 2, 3, 4, 5, 6, 7]);
}

#[test]
fn seek_lets_the_end_be_reported_again() {
    let mut cursor = PlaybackCursor { frame: 2, completion_sent: true };
    cursor.seek(1, 2);
    assert_eq!(cursor, PlaybackCursor { frame: 1, completion_sent: false });
}

#[test]
fn render_copies_samples_and_moves_the_cursor() {
    let samples = [10i16, 20, 30, 40, 50, 60];
    let mut cursor = PlaybackCursor::new();
    let mut out = [7i16; 4];
    assert!(!cursor.render(&samples, 1, &mut out));
    assert_eq!(out, [10, 20, 30, 40]);
    assert_eq!(cursor, PlaybackCursor { frame: 4, completion_sent: false });
}

#[test]
fn render_fills_with_silence_behind_the_end_and_reports_it_once() {
    let samples = [10i16, 20, 30, 40, 50, 60];
    let mut cursor = PlaybackCursor { frame: 4, completion_sent: false };
    let mut out = [7i16; 4];
    assert!(cursor.render(&samples, 1, &mut out));
    assert_eq!(out, [50, 60, 0, 0]);
    assert_eq!(cursor, PlaybackCursor { frame: 6, completion_sent: true });
    let mut more = [7i16; 4];
    assert!(!cursor.render(&samples, 1, &mut more));
    assert_eq!(more, [0, 0, 0, 0]);
    assert!(!cursor.render(&samples, 1, &mut more));
    assert_eq!(cursor, PlaybackCursor { frame: 6, completion_sent: true });
}

#[test]
fn render_that_ends_exactly_at_the_end_reports_on_the_next_callback() {
    let samples = [10i16, 20, 30, 40];
    let mut cursor = PlaybackCursor::new();
    let mut out = [7i16; 4];
    assert!(!cursor.render(&samples, 2, &mut out));
    assert_eq!(out, [10, 20, 30, 40]);
    assert_eq!(cursor, PlaybackCursor { frame: 2, completion_sent: false });
    assert!(cursor.render(&samples, 2, &mut out));
    assert_eq!(out, [0, 0, 0, 0]);
    assert_eq!(cursor.frame, 2);
}

#[test]
fn render_plays_whole_frames_only() {
    let samples = [1i16, 2, 3, 4, 5, 6, 7, 8];
    let mut cursor = PlaybackCursor { frame: 1, completion_sent: false };
    let mut out = [9i16; 5];
    assert!(!cursor.render(&samples, 2, &mut out));
    assert_eq!(out, [3, 4, 5, 6, 0]);
    assert_eq!(cursor.frame, 3);
    // the last sample of a buffer with an incomplete frame is never played
    let odd = [1i16, 2, 3];
    let mut start = PlaybackCursor::new();
    let mut four = [9i16; 4];
    assert!(start.render(&odd, 2, &mut four));
    assert_eq!(four, [1, 2, 0, 0]);
    assert_eq!(start.frame, 1);
}

#[test]
fn render_without_channels_is_silence() {
    let samples = [1i16, 2, 3];
    let mut cursor = PlaybackCursor::new();
    let mut out = [9i16; 3];
    assert!(!cursor.render(&samples, 0, &mut out));
    assert_eq!(out, [0, 0, 0]);
    assert_eq!(cursor, PlaybackCursor { frame: 0, completion_sent: false });
}

#[test]
fn render_with_a_cursor_behind_the_end_is_silence() {
    let samples = [1i16, 2, 3];
    let mut cursor = PlaybackCursor { frame: 50, completion_sent: false };
    let mut out = [9i16; 2];
    assert!(cursor.render(&samples, 1, &mut out));
    assert_eq!(out, [0, 0]);
    assert_eq!(cursor, PlaybackCursor { frame: 50, completion_sent: true });
    let mut none: [i16; 0] = [];
    let mut idle = PlaybackCursor { frame: 3, completion_sent: false };
    assert!(!idle.render(&samples, 1, &mut none));
    assert_eq!(idle, PlaybackCursor { frame: 3, completion_sent: false });
}

#[test]
fn waveform_renders_from_its_own_samples() {
    let mut waveform = WaveformData::from_samples(vec![5, 6, 7]);
    let mut out = [0i16; 2];
    assert!(!waveform.render(1, &mut out));
    assert_eq!(out, [5, 6]);
    assert!(waveform.render(1, &mut out));
    assert_eq!(out, [7, 0]);
    assert_eq!(waveform.current_idx, PlaybackCursor { frame: 3, completion_sent: true });
}

#[test]
fn new_waveform_is_empty() {
    let waveform = WaveformData::new();
    assert!(waveform.samples_raw.is_empty());
    assert_eq!(waveform.current_idx, PlaybackCursor { frame: 0, completion_sent: false });
    assert_eq!(waveform.playing_stream, None);
    assert!(waveform.silence_segments.is_empty());
}

#[test]
fn play_samples_starts_from_the_first_frame() {
    let mut waveform = WaveformData::from_samples(vec![1, 2, 3, 4]);
    waveform.current_idx = PlaybackCursor { frame: 2, completion_sent: true };
    let started = play_samples(&mut waveform, layout(2, 44100), PlaybackSource::Processed);
    assert_eq!(
        started,
        Ok(DeviceAction::Start {
            source: PlaybackSource::Processed,
            channels: 2,
            sample_rate: 44100
        })
    );
    assert_eq!(waveform.current_idx, PlaybackCursor { frame: 0, completion_sent: false });
    assert_eq!(waveform.playing_stream, Some(StreamState::Playing));
    assert_eq!(waveform.samples_raw, vec![1, 2, 3, 4]);
}

#[test]
fn play_samples_refuses_a_layout_that_no_stream_can_have() {
    let mut waveform = WaveformData::from_samples(vec![1, 2, 3, 4]);
    waveform.current_idx = PlaybackCursor { frame: 2, completion_sent: true };
    assert_eq!(
        play_samples(&mut waveform, layout(0, 44100), PlaybackSource::Raw),
        Err(AudioError::DeviceError)
    );
    assert_eq!(
        play_samples(&mut waveform, layout(2, 0), PlaybackSource::Raw),
        Err(AudioError::DeviceError)
    );
    assert_eq!(waveform.current_idx, PlaybackCursor { frame: 2, completion_sent: true });
    assert_eq!(waveform.playing_stream, None);
}

#[test]
fn pause_and_resume_need_a_stream() {
    let mut waveform = WaveformData::from_samples(vec![1, 2]);
    assert_eq!(waveform.pause(), Err(AudioError::DeviceError));
    assert_eq!(waveform.resume(), Err(AudioError::DeviceError));
    assert_eq!(waveform.playing_stream, None);
    waveform.playing_stream = Some(StreamState::Playing);
    waveform.current_idx.frame = 1;
    assert_eq!(waveform.pause(), Ok(()));
    assert_eq!(waveform.playing_stream, Some(StreamState::Paused));
    assert_eq!(waveform.pause(), Ok(()));
    assert_eq!(waveform.resume(), Ok(()));
    assert_eq!(waveform.playing_stream, Some(StreamState::Playing));
    assert_eq!(waveform.current_idx.frame, 1);
}

#[test]
fn stop_gives_up_the_stream_and_rewinds() {
    let mut waveform = WaveformData::from_samples(vec![1, 2]);
    waveform.playing_stream = Some(StreamState::Paused);
    waveform.current_idx = PlaybackCursor { frame: 2, completion_sent: true };
    assert!(waveform.stop());
    assert_eq!(waveform.playing_stream, None);
    assert_eq!(waveform.current_idx, PlaybackCursor { frame: 0, completion_sent: false });
    assert!(!waveform.stop());
}
