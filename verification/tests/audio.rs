use wiimaker::audio::{queue_awake_audio, AudioSourceState, OneshotBits};

fn src(clip: &str, volume: f32, play_on_awake: bool) -> AudioSourceState {
    AudioSourceState { clip: clip.to_string(), volume_bits: volume.to_bits(), play_on_awake, awake_queued: false }
}

#[test]
fn awake_queues_once() {
    let mut sources = vec![src("beep", 1.0, true)];
    let mut queue: Vec<OneshotBits> = Vec::new();
    queue_awake_audio(&mut sources, &mut queue);
    queue_awake_audio(&mut sources, &mut queue);
    assert_eq!(queue.len(), 1);
    assert_eq!(queue[0].clip, "beep");
    assert_eq!(queue[0].volume_bits, 1.0f32.to_bits());
    assert!(sources[0].awake_queued);
}

#[test]
fn awake_skips_empty_clip() {
    let mut sources = vec![src("", 1.0, true)];
    let mut queue: Vec<OneshotBits> = Vec::new();
    queue_awake_audio(&mut sources, &mut queue);
    assert!(queue.is_empty());
    assert!(!sources[0].awake_queued);
}

#[test]
fn awake_keeps_source_order_and_existing_queue() {
    let mut sources = vec![src("a", 0.5, true), src("b", 1.0, false), src("c", 0.25, true)];
    let mut queue = vec![OneshotBits { clip: "hit".to_string(), volume_bits: 0 }];
    queue_awake_audio(&mut sources, &mut queue);
    let clips: Vec<&str> = queue.iter().map(|q| q.clip.as_str()).collect();
    assert_eq!(clips, vec!["hit", "a", "c"]);
    assert_eq!(queue[2].volume_bits, 0.25f32.to_bits());
    assert!(sources[0].awake_queued && !sources[1].awake_queued && sources[2].awake_queued);
    assert_eq!(sources[1].clip, "b");
}
