use wiimaker::clips::{anim_clip_names, wav_clip_names};
use wiimaker::cook::wav_lookup;
use wiimaker::wav::{encode_pcm16_wav, inspect_wav_bytes, load_pcm16_wav_bytes, WavError};

fn beep_samples(duration_secs: f32) -> Vec<i16> {
    let rate = 22050u32;
    let n = ((duration_secs.max(0.02) * rate as f32) as usize).max(16);
    let mut samples = Vec::with_capacity(n);
    for i in 0..n {
        let t = i as f32 / rate as f32;
        let env = if i < n / 10 {
            i as f32 / (n / 10) as f32
        } else if i > n * 8 / 10 {
            (n - i) as f32 / (n / 10) as f32
        } else {
            1.0
        };
        let v = (t * 440.0 * 2.0 * std::f32::consts::PI).sin() * env * 0.35;
        samples.push((v * i16::MAX as f32) as i16);
    }
    samples
}

#[test]
fn write_inspect_roundtrip_pcm16_mono() {
    let samples = beep_samples(0.05);
    let bytes = encode_pcm16_wav(22050, 1, &samples).unwrap();
    let (info, _at, _n) = inspect_wav_bytes(&bytes).unwrap();
    assert_eq!(info.channels, 1);
    assert_eq!(info.bits_per_sample, 16);
    assert_eq!(info.sample_rate, 22050);
    assert!(info.frame_count as f32 / info.sample_rate as f32 > 0.04);
    let lookup = wav_lookup("beep").unwrap();
    assert_eq!(lookup.candidates, vec!["beep".to_string(), "beep.wav".to_string(), "beep".to_string()]);
    assert_eq!(lookup.expected, "beep.wav");
    let nope = wav_lookup("nope").unwrap();
    assert_eq!(nope.expected, "nope.wav");
}

#[test]
fn encode_then_load_gives_samples_back() {
    let samples = vec![0i16, 1, -1, i16::MAX, i16::MIN, 1234, -4321, 7];
    let bytes = encode_pcm16_wav(44100, 2, &samples).unwrap();
    assert_eq!(bytes.len(), 44 + 2 * samples.len());
    assert_eq!(&bytes[0..4], b"RIFF");
    assert_eq!(u32::from_le_bytes([bytes[4], bytes[5], bytes[6], bytes[7]]), 36 + 16);
    assert_eq!(&bytes[8..16], b"WAVEfmt ");
    let (info, pcm) = load_pcm16_wav_bytes(&bytes).unwrap();
    assert_eq!(info.sample_rate, 44100);
    assert_eq!(info.channels, 2);
    assert_eq!(info.frame_count, 4);
    assert_eq!(pcm, samples);
}

#[test]
fn encode_refuses_bad_channels_and_rate() {
    assert_eq!(encode_pcm16_wav(22050, 3, &[]), Err(WavError::BadChannels(3)));
    assert_eq!(encode_pcm16_wav(0, 1, &[]), Err(WavError::ZeroSampleRate));
}

fn header(fmt_tag: u16, channels: u16, bits: u16) -> Vec<u8> {
    let mut b = Vec::new();
    b.extend_from_slice(b"RIFF");
    b.extend_from_slice(&40u32.to_le_bytes());
    b.extend_from_slice(b"WAVEfmt ");
    b.extend_from_slice(&16u32.to_le_bytes());
    b.extend_from_slice(&fmt_tag.to_le_bytes());
    b.extend_from_slice(&channels.to_le_bytes());
    b.extend_from_slice(&8000u32.to_le_bytes());
    b.extend_from_slice(&(8000u32 * channels as u32 * 2).to_le_bytes());
    b.extend_from_slice(&(channels * 2).to_le_bytes());
    b.extend_from_slice(&bits.to_le_bytes());
    b.extend_from_slice(b"data");
    b.extend_from_slice(&4u32.to_le_bytes());
    b.extend_from_slice(&[1, 0, 2, 0]);
    b
}

#[test]
fn inspect_errors_name_the_fault() {
    assert_eq!(inspect_wav_bytes(b"RIFF").unwrap_err(), WavError::ShortHeader);
    assert_eq!(inspect_wav_bytes(b"RIFX\0\0\0\0WAVE").unwrap_err(), WavError::NotRiffWave);
    assert_eq!(inspect_wav_bytes(&header(3, 1, 16)).unwrap_err(), WavError::NotPcm(3));
    assert_eq!(inspect_wav_bytes(&header(1, 1, 8)).unwrap_err(), WavError::NotSixteenBit(8));
    assert_eq!(inspect_wav_bytes(&header(1, 6, 16)).unwrap_err(), WavError::BadChannels(6));
    let ok = header(1, 1, 16);
    assert!(inspect_wav_bytes(&ok).is_ok());
    assert_eq!(inspect_wav_bytes(&ok[..36]).unwrap_err(), WavError::MissingData);
    assert_eq!(inspect_wav_bytes(&ok[..40]).unwrap_err(), WavError::Truncated);
    assert_eq!(inspect_wav_bytes(&ok[..20]).unwrap_err(), WavError::Truncated);
    let mut small = Vec::new();
    small.extend_from_slice(b"RIFF\0\0\0\0WAVEfmt ");
    small.extend_from_slice(&8u32.to_le_bytes());
    small.extend_from_slice(&[0u8; 8]);
    assert_eq!(inspect_wav_bytes(&small).unwrap_err(), WavError::FmtTooSmall);
    let mut no_fmt = Vec::new();
    no_fmt.extend_from_slice(b"RIFF\0\0\0\0WAVEdata");
    no_fmt.extend_from_slice(&2u32.to_le_bytes());
    no_fmt.extend_from_slice(&[0, 0]);
    assert_eq!(inspect_wav_bytes(&no_fmt).unwrap_err(), WavError::MissingFmt);
}

#[test]
fn clip_listing_keeps_wavs_sorted() {
    let paths: Vec<String> = ["assets/zap.WAV", "assets/beep.wav", "assets/readme.txt", "assets/beep.png", "assets/Alarm.wav", "assets/.wav", "assets/b.wav"]
        .iter()
        .map(|s| s.to_string())
        .collect();
    assert_eq!(wav_clip_names(&paths), vec!["Alarm".to_string(), "b".to_string(), "beep".to_string(), "zap".to_string()]);
    assert!(wav_clip_names(&[]).is_empty());
}

#[test]
fn anim_listing_strips_the_suffix() {
    let paths: Vec<String> = ["a/walk.anim.json", "a/idle.anim.json", "a/walk.json", "a/.anim.json", "a/x.ANIM.json"]
        .iter()
        .map(|s| s.to_string())
        .collect();
    assert_eq!(anim_clip_names(&paths), vec!["".to_string(), "idle".to_string(), "walk".to_string()]);
}
