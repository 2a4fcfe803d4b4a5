use audio_core::normalize::FrameBuffer;
use audio_core::normalize::Sample;
use audio_core::normalize::SampleEncoding;
use audio_core::waveform::producer_step;
use audio_core::waveform::rate_announcement;
use audio_core::waveform::DecodeEvent;
use audio_core::waveform::ProducerAction;
use audio_core::waveform::WaveformGenerator;
use audio_core::waveform::WaveformMsg;
use audio_core::waveform::DEFAULT_SAMPLE_RATE;

fn sample(num: i64, den: i64) -> Sample {
    Sample { num, den }
}

#[test]
fn partial_drains_concatenate_like_one_drain() {
    let msgs = vec![
        WaveformMsg::Chunk(vec![sample(1, 10), sample(2, 10)]),
        WaveformMsg::Rate(48000),
        WaveformMsg::Chunk(vec![sample(3, 10)]),
        WaveformMsg::Chunk(vec![sample(4, 10), sample(5, 10)]),
    ];

    let mut one_drain = WaveformGenerator::new();
    one_drain.update_buffer(msgs.clone());

    let mut partial_drains = WaveformGenerator::new();
    partial_drains.update_buffer(msgs[..2].to_vec());
    partial_drains.update_buffer(vec![]);
    partial_drains.update_buffer(msgs[2..].to_vec());

    assert_eq!(one_drain.get_buffer(), partial_drains.get_buffer());
    assert_eq!(one_drain.get_sample_rate(), partial_drains.get_sample_rate());
    let nums: Vec<i64> = one_drain.get_buffer().iter().map(|s| s.num).collect();
    assert_eq!(nums, vec![1, 2, 3, 4, 5]);
}

#[test]
fn drain_with_no_pending_messages_is_a_no_op() {
    let mut g = WaveformGenerator::new();
    g.update_buffer(vec![]);
    assert!(g.get_buffer().is_empty());
    assert_eq!(g.get_sample_rate(), DEFAULT_SAMPLE_RATE);
}

#[test]
fn rate_messages_update_the_stored_rate() {
    let mut g = WaveformGenerator::new();
    assert_eq!(g.get_sample_rate(), 44100);
    g.update_buffer(vec![WaveformMsg::Rate(48000)]);
    assert_eq!(g.get_sample_rate(), 48000);
    g.update_buffer(vec![WaveformMsg::Rate(0)]);
    assert_eq!(g.get_sample_rate(), 48000);
    g.set_sample_rate(22050);
    assert_eq!(g.get_sample_rate(), 22050);
    g.set_sample_rate(0);
    assert_eq!(g.get_sample_rate(), 22050);
}

#[test]
fn reset_discards_samples_and_keeps_the_rate() {
    let mut g = WaveformGenerator::new();
    g.update_buffer(vec![
        WaveformMsg::Rate(8000),
        WaveformMsg::Chunk(vec![sample(1, 2)]),
    ]);
    assert_eq!(g.get_buffer().len(), 1);
    g.reset();
    assert!(g.get_buffer().is_empty());
    assert_eq!(g.get_sample_rate(), 8000);
}

fn filled_generator(len: i64) -> WaveformGenerator {
    let mut g = WaveformGenerator::new();
    g.set_sample_rate(1000);
    let chunk: Vec<Sample> = (0..len).map(|i| sample(i, 1000)).collect();
    g.update_buffer(vec![WaveformMsg::Chunk(chunk)]);
    g
}

#[test]
fn window_is_centred_and_clamped_to_the_buffer() {
    // 1000 samples at 1000 samples per second: one sample per millisecond.
    let g = filled_generator(1000);
    let w = g.get_visible_waveform(500, 100);
    assert_eq!(w.len(), 100);
    assert_eq!(w[0].num, 450);
    assert_eq!(w[99].num, 549);
}

#[test]
fn window_saturates_at_the_buffer_start() {
    let g = filled_generator(1000);
    let w = g.get_visible_waveform(10, 100);
    assert_eq!(w[0].num, 0);
    assert_eq!(w.len(), 100);
}

#[test]
fn window_never_panics_for_out_of_range_centres() {
    let g = filled_generator(100);
    assert!(g.get_visible_waveform(u64::MAX, 2000).is_empty());
    assert!(g.get_visible_waveform(1_000_000, 50).is_empty());
    let whole = g.get_visible_waveform(0, u64::MAX);
    assert_eq!(whole.len(), 100);
}

#[test]
fn window_on_an_empty_buffer_is_empty() {
    let mut g = WaveformGenerator::new();
    g.set_sample_rate(1000);
    assert!(g.get_visible_waveform(0, 1000).is_empty());
    assert!(g.get_visible_waveform(500, 0).is_empty());
}

#[test]
fn decoded_packets_are_normalized_and_sent() {
    let b = FrameBuffer::new(SampleEncoding::U8, vec![vec![255, 0]]).unwrap();
    match producer_step(DecodeEvent::Frames(b)) {
        ProducerAction::Send(chunk) => {
            assert_eq!(chunk, vec![sample(127, 128), sample(-128, 128)]);
        }
        other => panic!("expected a send, got {:?}", action_name(&other)),
    }
}

#[test]
fn empty_decoded_packets_are_skipped() {
    let b = FrameBuffer::new(SampleEncoding::U8, vec![vec![]]).unwrap();
    assert!(matches!(
        producer_step(DecodeEvent::Frames(b)),
        ProducerAction::SkipPacket
    ));
}

#[test]
fn corrupt_packets_are_skipped_and_transport_errors_finish() {
    assert!(matches!(
        producer_step(DecodeEvent::CorruptPacket),
        ProducerAction::SkipPacket
    ));
    assert!(matches!(
        producer_step(DecodeEvent::TransportEnded),
        ProducerAction::Finish
    ));
}

#[test]
fn positive_rates_are_announced_and_others_are_not() {
    match rate_announcement(Some(44100)) {
        Some(WaveformMsg::Rate(r)) => assert_eq!(r, 44100),
        _ => panic!("a positive discovered rate must be announced"),
    }
    assert!(rate_announcement(Some(0)).is_none());
    assert!(rate_announcement(None).is_none());
}

fn action_name(a: &ProducerAction) -> &'static str {
    match a {
        ProducerAction::Send(_) => "send",
        ProducerAction::SkipPacket => "skip",
        ProducerAction::Finish => "finish",
    }
}
