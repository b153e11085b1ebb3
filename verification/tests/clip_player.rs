use mtp_audioplayer::clip_player::{
    generate_samples, select_config, supports_samplerate, ClipPlayer, Error, PlaybackPoll,
    PlaybackState, SampleFormat, StartClip, SupportedStreamConfigRange,
};
use mtp_audioplayer::clip_queue::{ClipQueue, PlayPoll, PlayRun};
use mtp_audioplayer::sample_buffer::{AsSampleSlice, F32Bits, Sample, SampleBuffer};
use std::sync::Arc;

fn range(channels: u16, min: u32, max: u32, format: SampleFormat) -> SupportedStreamConfigRange {
    SupportedStreamConfigRange {
        channels,
        min_sample_rate: min,
        max_sample_rate: max,
        sample_format: format,
    }
}

fn message(r: Result<usize, Error>) -> String {
    match r {
        Err(Error::NoMatchinConfig(m)) => m,
        other => panic!("{:?}", other),
    }
}

#[test]
fn preemption_scenario() {
    // One sample is one millisecond; the stream asks for ten samples at a
    // time.
    let clip_a = Arc::new(SampleBuffer::I16(vec![1; 10_000]));
    let clip_b = Arc::new(SampleBuffer::I16(vec![2; 2_000]));
    let mut queue = ClipQueue::new(ClipPlayer::new());
    queue.clip_player.stream_started();
    let mut run_a = PlayRun::Idle;
    let mut run_b = PlayRun::Idle;
    let mut current_seqno = 0u32;
    let mut pos = 0usize;
    let mut out: Vec<i16> = Vec::new();
    let mut a_ended = None;
    let mut b_ended = None;
    let mut now = 0u64;
    while now < 4000 {
        if a_ended.is_none() {
            match queue.play(&mut run_a, &clip_a, 0, None, now) {
                PlayPoll::Pending => {}
                PlayPoll::Finished => a_ended = Some(now),
                PlayPoll::Failed(e) => panic!("{:?}", e),
            }
        }
        if now >= 500 && b_ended.is_none() {
            match queue.play(&mut run_b, &clip_b, 5, None, now) {
                PlayPoll::Pending => {}
                PlayPoll::Finished => b_ended = Some(now),
                PlayPoll::Failed(e) => panic!("{:?}", e),
            }
        }
        let mut buffer = [0i16; 10];
        generate_samples(
            &mut queue.clip_player.state,
            &mut buffer[..],
            &mut current_seqno,
            &mut pos,
        );
        out.extend_from_slice(&buffer);
        now += 10;
    }
    assert_eq!(a_ended, Some(510));
    assert_eq!(b_ended, Some(2510));
    // The first clip is heard for half a second, then never again.
    assert!(out[..500].iter().all(|s| *s == 1));
    assert!(out[500..].iter().all(|s| *s != 1));
    assert_eq!(out.iter().filter(|s| **s == 2).count(), 2000);
    assert!(out[510..2510].iter().all(|s| *s == 2));
    assert!(out[2510..].iter().all(|s| *s == 0));
    assert_eq!(queue.scheduler.len(), 0);
}

#[test]
fn equal_priority_waits_for_the_playing_clip() {
    let clip_a = Arc::new(SampleBuffer::I16(vec![1; 30]));
    let clip_b = Arc::new(SampleBuffer::I16(vec![2; 20]));
    let mut queue = ClipQueue::new(ClipPlayer::new());
    queue.clip_player.stream_started();
    let mut run_a = PlayRun::Idle;
    let mut run_b = PlayRun::Idle;
    let mut current_seqno = 0u32;
    let mut pos = 0usize;
    let mut out: Vec<i16> = Vec::new();
    let mut a_done = false;
    let mut b_done = false;
    for now in 0..10u64 {
        if !a_done {
            a_done = matches!(
                queue.play(&mut run_a, &clip_a, 3, None, now),
                PlayPoll::Finished
            );
        }
        if !b_done {
            b_done = matches!(
                queue.play(&mut run_b, &clip_b, 3, None, now),
                PlayPoll::Finished
            );
        }
        let mut buffer = [0i16; 10];
        generate_samples(
            &mut queue.clip_player.state,
            &mut buffer[..],
            &mut current_seqno,
            &mut pos,
        );
        out.extend_from_slice(&buffer);
    }
    assert!(a_done && b_done);
    assert!(out[..30].iter().all(|s| *s == 1));
    assert_eq!(out.iter().filter(|s| **s == 1).count(), 30);
    assert_eq!(out.iter().filter(|s| **s == 2).count(), 20);
    let first_b = out.iter().position(|s| *s == 2).unwrap();
    assert!(first_b >= 30);
    assert!(out[first_b..first_b + 20].iter().all(|s| *s == 2));
}

#[test]
fn a_clip_that_waits_too_long_is_given_up() {
    let clip_a = Arc::new(SampleBuffer::I16(vec![1; 1000]));
    let clip_b = Arc::new(SampleBuffer::I16(vec![2; 20]));
    let mut queue = ClipQueue::new(ClipPlayer::new());
    queue.clip_player.stream_started();
    let mut run_a = PlayRun::Idle;
    let mut run_b = PlayRun::Idle;
    assert!(matches!(
        queue.play(&mut run_a, &clip_a, 5, None, 0),
        PlayPoll::Pending
    ));
    assert!(matches!(
        queue.play(&mut run_b, &clip_b, 1, Some(100), 0),
        PlayPoll::Pending
    ));
    assert!(matches!(run_b, PlayRun::WaitToken { .. }));
    assert!(matches!(
        queue.play(&mut run_b, &clip_b, 1, Some(100), 99),
        PlayPoll::Pending
    ));
    assert!(matches!(
        queue.play(&mut run_b, &clip_b, 1, Some(100), 100),
        PlayPoll::Finished
    ));
    assert!(matches!(run_b, PlayRun::Done));
    assert_eq!(queue.scheduler.len(), 1);
    assert!(matches!(
        queue.clip_player.state,
        PlaybackState::Playing { seqno: 1, .. }
    ));
}

#[test]
fn cancel_gives_the_token_back_and_stops_the_clip() {
    let clip = Arc::new(SampleBuffer::I16(vec![1; 1000]));
    let mut queue = ClipQueue::new(ClipPlayer::new());
    queue.clip_player.stream_started();
    let mut run = PlayRun::Idle;
    assert!(matches!(
        queue.play(&mut run, &clip, 0, None, 0),
        PlayPoll::Pending
    ));
    assert_eq!(queue.scheduler.len(), 1);
    queue.cancel(&mut run);
    assert!(matches!(run, PlayRun::Done));
    assert_eq!(queue.scheduler.len(), 0);
    assert!(matches!(queue.clip_player.state, PlaybackState::Cancel));
    let mut buffer = [7i16; 4];
    let mut current_seqno = 0u32;
    let mut pos = 0usize;
    generate_samples(
        &mut queue.clip_player.state,
        &mut buffer[..],
        &mut current_seqno,
        &mut pos,
    );
    assert_eq!(buffer, [0, 0, 0, 0]);
    assert!(matches!(queue.clip_player.state, PlaybackState::Ready));
}

#[test]
fn a_failed_stream_fails_the_clip() {
    let clip = Arc::new(SampleBuffer::I16(vec![1; 1000]));
    let mut queue = ClipQueue::new(ClipPlayer::new());
    queue.clip_player.state = PlaybackState::Error(Error::PlayStream("gone".to_string()));
    let mut run = PlayRun::Idle;
    match queue.play(&mut run, &clip, 0, None, 0) {
        PlayPoll::Failed(e) => assert_eq!(e.to_string(), "gone"),
        other => panic!("{:?}", other),
    }
    assert_eq!(queue.scheduler.len(), 0);
    assert!(matches!(queue.clip_player.state, PlaybackState::Ready));
}

#[test]
fn generate_samples_renders_the_clip_and_then_silence() {
    let clip = Arc::new(SampleBuffer::I16(vec![10, 11, 12, 13, 14]));
    let mut state = PlaybackState::Playing {
        seqno: 4,
        samples: clip.clone(),
    };
    let mut current_seqno = 0u32;
    let mut pos = 0usize;
    let mut buffer = [99i16; 3];
    generate_samples(&mut state, &mut buffer[..], &mut current_seqno, &mut pos);
    assert_eq!(buffer, [10, 11, 12]);
    assert_eq!(current_seqno, 4);
    assert_eq!(pos, 3);
    assert!(matches!(state, PlaybackState::Playing { seqno: 4, .. }));
    generate_samples(&mut state, &mut buffer[..], &mut current_seqno, &mut pos);
    assert_eq!(buffer, [13, 14, 0]);
    assert_eq!(pos, 0);
    assert!(matches!(state, PlaybackState::Ready));
    generate_samples(&mut state, &mut buffer[..], &mut current_seqno, &mut pos);
    assert_eq!(buffer, [0, 0, 0]);
}

#[test]
fn generate_samples_starts_a_new_clip_at_its_beginning() {
    let clip = Arc::new(SampleBuffer::U16(vec![1, 2, 3, 4, 5, 6]));
    let mut state = PlaybackState::Playing {
        seqno: 9,
        samples: clip,
    };
    // The callback rendered clip 8 up to its position 4.
    let mut current_seqno = 8u32;
    let mut pos = 4usize;
    let mut buffer = [0u16; 2];
    generate_samples(&mut state, &mut buffer[..], &mut current_seqno, &mut pos);
    assert_eq!(buffer, [1, 2]);
    assert_eq!(current_seqno, 9);
    assert_eq!(pos, 2);
}

#[test]
fn generate_samples_clip_that_ends_with_the_buffer() {
    let clip = Arc::new(SampleBuffer::I16(vec![5, 6]));
    let mut state = PlaybackState::Playing {
        seqno: 1,
        samples: clip,
    };
    let mut current_seqno = 0u32;
    let mut pos = 0usize;
    let mut buffer = [0i16; 2];
    generate_samples(&mut state, &mut buffer[..], &mut current_seqno, &mut pos);
    assert_eq!(buffer, [5, 6]);
    assert_eq!(pos, 0);
    assert!(matches!(state, PlaybackState::Ready));
}

#[test]
fn silence_has_the_value_of_the_format() {
    let mut current_seqno = 0u32;
    let mut pos = 0usize;
    let mut state = PlaybackState::Ready;
    let mut unsigned = [1u16; 3];
    generate_samples(&mut state, &mut unsigned[..], &mut current_seqno, &mut pos);
    assert_eq!(unsigned, [32768, 32768, 32768]);
    let mut floats = [F32Bits(1.0f32.to_bits()); 2];
    generate_samples(&mut state, &mut floats[..], &mut current_seqno, &mut pos);
    assert_eq!(floats, [F32Bits(0), F32Bits(0)]);
    let mut state = PlaybackState::Setup;
    let mut signed = [1i16; 2];
    generate_samples(&mut state, &mut signed[..], &mut current_seqno, &mut pos);
    assert_eq!(signed, [0, 0]);
    assert!(matches!(state, PlaybackState::Setup));
}

#[test]
fn float_clips_are_moved_bit_by_bit() {
    let samples = vec![
        F32Bits(0.5f32.to_bits()),
        F32Bits((-0.25f32).to_bits()),
        F32Bits(f32::NAN.to_bits()),
    ];
    let clip = Arc::new(SampleBuffer::F32(samples.clone()));
    let mut state = PlaybackState::Playing {
        seqno: 1,
        samples: clip,
    };
    let mut current_seqno = 0u32;
    let mut pos = 0usize;
    let mut buffer = [F32Bits(0); 4];
    generate_samples(&mut state, &mut buffer[..], &mut current_seqno, &mut pos);
    assert_eq!(&buffer[..3], &samples[..]);
    assert_eq!(buffer[3], F32Bits(0));
}

#[test]
fn sample_marks() {
    assert_eq!(<i16 as Sample>::sample_offset(), 0);
    assert_eq!(<i16 as Sample>::sample_min(), i16::MIN);
    assert_eq!(<i16 as Sample>::sample_max(), i16::MAX);
    assert_eq!(<i16 as Sample>::sample_abs_max(), 32767);
    assert_eq!(<u16 as Sample>::sample_offset(), 32768);
    assert_eq!(<u16 as Sample>::sample_min(), 0);
    assert_eq!(<u16 as Sample>::sample_max(), 65535);
    assert_eq!(<u16 as Sample>::sample_abs_max(), 32767);
    assert_eq!(f32::from_bits(<F32Bits as Sample>::sample_offset().0), 0.0);
    assert_eq!(f32::from_bits(<F32Bits as Sample>::sample_min().0), -1.0);
    assert_eq!(f32::from_bits(<F32Bits as Sample>::sample_max().0), 1.0);
    assert_eq!(f32::from_bits(<F32Bits as Sample>::sample_abs_max().0), 1.0);
}

#[test]
fn sample_buffer_length_and_slices() {
    let b = SampleBuffer::I16(vec![1, 2, 3]);
    assert_eq!(b.len(), 3);
    assert!(!b.is_empty());
    let s: &[i16] = b.as_sample_slice();
    assert_eq!(s, &[1, 2, 3]);
    let e = SampleBuffer::U16(Vec::new());
    assert_eq!(e.len(), 0);
    assert!(e.is_empty());
    let f = SampleBuffer::F32(vec![F32Bits(7)]);
    let s: &[F32Bits] = f.as_sample_slice();
    assert_eq!(s, &[F32Bits(7)]);
}

#[test]
fn select_config_takes_the_matching_configuration() {
    let configs = vec![
        range(1, 8000, 48000, SampleFormat::I16),
        range(2, 8000, 22050, SampleFormat::I16),
        range(2, 8000, 48000, SampleFormat::F32),
        range(2, 8000, 48000, SampleFormat::I16),
        range(2, 44100, 44100, SampleFormat::I16),
    ];
    assert_eq!(
        select_config(&configs, 44100, 2, SampleFormat::I16).unwrap(),
        3
    );
    assert_eq!(
        select_config(&configs, 44100, 2, SampleFormat::F32).unwrap(),
        2
    );
    assert_eq!(
        select_config(&configs, 44100, 1, SampleFormat::I16).unwrap(),
        0
    );
}

#[test]
fn select_config_names_what_is_missing() {
    let none: Vec<SupportedStreamConfigRange> = Vec::new();
    assert_eq!(
        message(select_config(&none, 44100, 2, SampleFormat::I16)),
        "No suitable configuration found"
    );
    let configs = vec![range(2, 8000, 22050, SampleFormat::U16)];
    assert_eq!(
        message(select_config(&configs, 8000, 6, SampleFormat::U16)),
        "No configuration with 6 channels found"
    );
    assert_eq!(
        message(select_config(&configs, 44100, 2, SampleFormat::U16)),
        "No configuration that supports 44100 samples/s found"
    );
    assert_eq!(
        message(select_config(&configs, 8000, 2, SampleFormat::I16)),
        "No configuration with signed 16-bit format found"
    );
}

#[test]
fn supports_samplerate_holds_both_ends() {
    let r = range(2, 8000, 48000, SampleFormat::I16);
    assert!(supports_samplerate(&r, 8000));
    assert!(supports_samplerate(&r, 48000));
    assert!(!supports_samplerate(&r, 7999));
    assert!(!supports_samplerate(&r, 48001));
}

#[test]
fn player_steps() {
    let clip = Arc::new(SampleBuffer::I16(vec![1, 2, 3]));
    let mut player = ClipPlayer::new();
    assert!(matches!(player.start_clip(&clip), StartClip::Wait));
    player.stream_started();
    assert!(matches!(
        player.start_clip(&clip),
        StartClip::Started { seqno: 1 }
    ));
    assert!(matches!(player.poll(1), PlaybackPoll::Pending));
    assert!(matches!(player.poll(7), PlaybackPoll::Finished));
    player.cancel(7);
    assert!(matches!(player.state, PlaybackState::Playing { .. }));
    assert!(matches!(player.start_clip(&clip), StartClip::Wait));
    assert!(matches!(player.state, PlaybackState::Cancel));
    assert!(matches!(player.poll(1), PlaybackPoll::Finished));
    player.state = PlaybackState::Ready;
    assert!(matches!(
        player.start_clip(&clip),
        StartClip::Started { seqno: 2 }
    ));
    player.cancel(2);
    assert!(matches!(player.state, PlaybackState::Cancel));
    assert!(!player.playback_thread());
    assert!(!player.shutdown());
    assert!(matches!(player.state, PlaybackState::Shutdown));
    assert!(matches!(
        player.start_clip(&clip),
        StartClip::Failed(Error::Shutdown)
    ));
    assert!(!player.shutdown());
    assert!(player.playback_thread());
    assert!(matches!(player.state, PlaybackState::Done));
    assert!(player.shutdown());
}

#[test]
fn sequence_numbers_start_again_after_the_largest() {
    let clip = Arc::new(SampleBuffer::I16(vec![1, 2, 3]));
    let mut player = ClipPlayer::new();
    player.stream_started();
    player.next_seqno = u32::MAX;
    assert!(matches!(
        player.start_clip(&clip),
        StartClip::Started { seqno: u32::MAX }
    ));
    assert_eq!(player.next_seqno, 0);
}

#[test]
fn player_errors_and_states_as_text() {
    assert_eq!(Error::Shutdown.to_string(), "Playback thread shutdown");
    assert_eq!(Error::Devices("no device".to_string()).to_string(), "no device");
    assert_eq!(PlaybackState::Setup.to_string(), "Setup");
    assert_eq!(PlaybackState::Ready.to_string(), "Ready");
    assert_eq!(PlaybackState::Cancel.to_string(), "Cancel");
    assert_eq!(PlaybackState::Shutdown.to_string(), "Shutdown");
    assert_eq!(PlaybackState::Done.to_string(), "Done");
    assert_eq!(
        PlaybackState::Error(Error::Name("x".to_string())).to_string(),
        "Error(x)"
    );
    let playing = PlaybackState::Playing {
        seqno: 12,
        samples: Arc::new(SampleBuffer::I16(vec![0; 345])),
    };
    assert_eq!(playing.to_string(), "Playing(Seq: 12, Len: 345");
}

#[test]
fn a_clip_whose_token_was_taken_away_is_not_started() {
    let clip_a = Arc::new(SampleBuffer::I16(vec![1; 100]));
    let clip_b = Arc::new(SampleBuffer::I16(vec![2; 100]));
    let clip_c = Arc::new(SampleBuffer::I16(vec![3; 100]));
    let mut queue = ClipQueue::new(ClipPlayer::new());
    queue.clip_player.stream_started();
    let mut run_a = PlayRun::Idle;
    let mut run_b = PlayRun::Idle;
    let mut run_c = PlayRun::Idle;
    let mut current_seqno = 0u32;
    let mut pos = 0usize;
    let mut out: Vec<i16> = Vec::new();
    let mut render = |queue: &mut ClipQueue, out: &mut Vec<i16>| {
        let mut buffer = [0i16; 10];
        generate_samples(
            &mut queue.clip_player.state,
            &mut buffer[..],
            &mut current_seqno,
            &mut pos,
        );
        out.extend_from_slice(&buffer);
    };
    assert!(matches!(
        queue.play(&mut run_a, &clip_a, 0, None, 0),
        PlayPoll::Pending
    ));
    render(&mut queue, &mut out);
    // The second clip takes the output and asks the player to make room.
    assert!(matches!(
        queue.play(&mut run_b, &clip_b, 5, None, 1),
        PlayPoll::Pending
    ));
    assert!(matches!(run_b, PlayRun::StartClip { .. }));
    // Before the player has made room, a third clip takes the output.
    assert!(matches!(
        queue.play(&mut run_c, &clip_c, 9, None, 2),
        PlayPoll::Pending
    ));
    assert!(matches!(run_c, PlayRun::StartClip { .. }));
    render(&mut queue, &mut out);
    assert!(matches!(queue.clip_player.state, PlaybackState::Ready));
    // The second clip no longer holds the output: it ends unplayed.
    assert!(matches!(
        queue.play(&mut run_b, &clip_b, 5, None, 3),
        PlayPoll::Finished
    ));
    assert!(matches!(queue.clip_player.state, PlaybackState::Ready));
    assert!(matches!(
        queue.play(&mut run_a, &clip_a, 0, None, 3),
        PlayPoll::Finished
    ));
    assert!(matches!(
        queue.play(&mut run_c, &clip_c, 9, None, 3),
        PlayPoll::Pending
    ));
    assert!(matches!(run_c, PlayRun::Playing { .. }));
    for now in 4..20 {
        render(&mut queue, &mut out);
        if matches!(
            queue.play(&mut run_c, &clip_c, 9, None, now),
            PlayPoll::Finished
        ) {
            break;
        }
    }
    assert!(matches!(run_c, PlayRun::Done));
    assert_eq!(queue.scheduler.len(), 0);
    assert_eq!(out.iter().filter(|s| **s == 1).count(), 10);
    assert_eq!(out.iter().filter(|s| **s == 2).count(), 0);
    assert_eq!(out.iter().filter(|s| **s == 3).count(), 100);
}
