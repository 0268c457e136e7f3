//! Configuration sections of the pipeline and their defaults.

use crate::types::DropPolicy;
use vstd::prelude::*;

verus! {

/// Capture device settings.
#[derive(Clone, Debug)]
pub struct AudioConfig {
    /// Name of the input device, or `"default"`.
    pub device_id: String,
    /// Capture rate in Hz.
    pub sample_rate: u32,
    /// Channel count of the device.
    pub channels: u16,
    /// Name of the playback device used for monitoring, or `"default"`.
    pub output_device_id: String,
}

/// Voice-activity settings. Levels are held in thousandths of a decibel.
#[derive(Clone, Debug)]
pub struct VadConfig {
    /// A chunk louder than this is voice.
    pub threshold_mdb: i32,
    /// Grace period after the level drops below the threshold.
    pub hangover_duration_ms: u32,
    /// Silence after which a connected session is closed.
    pub silence_disconnect_threshold_ms: u32,
}

/// Retry buffer settings.
#[derive(Clone, Debug)]
pub struct BufferConfig {
    pub capacity_seconds: u32,
    pub drop_policy: DropPolicy,
}

/// Which recogniser a channel talks to.
#[derive(Clone, Copy, Debug, PartialEq, Eq, Structural)]
pub enum TranscribeBackendType {
    /// Streaming recogniser fed with compressed frames.
    Aws,
    /// Non-streaming recogniser fed with whole wave blobs.
    Whisper,
}

/// Recogniser settings.
#[derive(Clone, Debug)]
pub struct TranscribeConfig {
    pub backend: TranscribeBackendType,
    pub region: String,
    pub language_code: String,
    pub sample_rate: u32,
    pub max_retries: u32,
    pub timeout_seconds: u64,
    /// Open a session when the pipeline starts, before any voice is heard.
    pub connect_on_startup: bool,
    /// Forward the backlog gathered while disconnected once a session opens.
    pub send_buffered_on_reconnect: bool,
}

/// Settings of the non-streaming recogniser.
#[derive(Clone, Debug)]
pub struct WhisperConfig {
    pub api_key: String,
    pub model: String,
    pub language: Option<String>,
    pub sample_rate: u32,
    /// Seconds of audio gathered for one request.
    pub chunk_duration_secs: u64,
}

/// Where recordings and logs go.
#[derive(Clone, Debug)]
pub struct OutputConfig {
    pub wav_output_dir: String,
    pub log_level: String,
}

/// Settings of the lossless codec.
#[derive(Clone, Debug)]
pub struct FlacConfig {
    /// 0 (fastest) to 8 (smallest).
    pub compression_level: u32,
    pub enabled: bool,
}

/// One channel of the device.
#[derive(Clone, Debug)]
pub struct ChannelConfig {
    pub id: usize,
    pub name: String,
    pub enabled: bool,
}

pub fn default_device_id() -> (s: String)
    ensures
        s@ == "default"@,
{
    "default".to_owned()
}

pub fn default_sample_rate() -> (rate: u32)
    ensures
        rate == 16000,
{
    16000
}

pub fn default_channels() -> (n: u16)
    ensures
        n == 4,
{
    4
}

pub fn default_threshold_mdb() -> (level: i32)
    ensures
        level == -40_000,
{
    -40_000
}

pub fn default_hangover_duration_ms() -> (ms: u32)
    ensures
        ms == 500,
{
    500
}

pub fn default_silence_disconnect_threshold_ms() -> (ms: u32)
    ensures
        ms == 10_000,
{
    10_000
}

pub fn default_capacity_seconds() -> (secs: u32)
    ensures
        secs == 300,
{
    300
}

pub fn default_drop_policy() -> (policy: DropPolicy)
    ensures
        policy == DropPolicy::DropOldest,
{
    DropPolicy::DropOldest
}

pub fn default_region() -> (s: String)
    ensures
        s@ == "ap-northeast-1"@,
{
    "ap-northeast-1".to_owned()
}

pub fn default_language_code() -> (s: String)
    ensures
        s@ == "ja-JP"@,
{
    "ja-JP".to_owned()
}

pub fn default_transcribe_sample_rate() -> (rate: u32)
    ensures
        rate == 16000,
{
    16000
}

pub fn default_max_retries() -> (n: u32)
    ensures
        n == 5,
{
    5
}

pub fn default_timeout_seconds() -> (secs: u64)
    ensures
        secs == 10,
{
    10
}

pub fn default_wav_output_dir() -> (s: String)
    ensures
        s@ == "./recordings"@,
{
    "./recordings".to_owned()
}

pub fn default_log_level() -> (s: String)
    ensures
        s@ == "info"@,
{
    "info".to_owned()
}

pub fn default_enabled() -> (on: bool)
    ensures
        on,
{
    true
}

pub fn default_flac_compression_level() -> (level: u32)
    ensures
        level == 5,
{
    5
}

pub fn default_flac_enabled() -> (on: bool)
    ensures
        on,
{
    true
}

pub fn default_backend() -> (backend: TranscribeBackendType)
    ensures
        backend == TranscribeBackendType::Aws,
{
    TranscribeBackendType::Aws
}

pub fn default_whisper_model() -> (s: String)
    ensures
        s@ == "whisper-1"@,
{
    "whisper-1".to_owned()
}

pub fn default_chunk_duration_secs() -> (secs: u64)
    ensures
        secs == 5,
{
    5
}

impl Default for AudioConfig {
    fn default() -> (c: Self)
        ensures
            c.device_id@ == "default"@,
            c.sample_rate == 16000,
            c.channels == 4,
            c.output_device_id@ == "default"@,
    {
        AudioConfig {
            device_id: default_device_id(),
            sample_rate: default_sample_rate(),
            channels: default_channels(),
            output_device_id: default_device_id(),
        }
    }
}

impl Default for VadConfig {
    fn default() -> (c: Self)
        ensures
            c.threshold_mdb == -40_000,
            c.hangover_duration_ms == 500,
            c.silence_disconnect_threshold_ms == 10_000,
    {
        VadConfig {
            threshold_mdb: default_threshold_mdb(),
            hangover_duration_ms: default_hangover_duration_ms(),
            silence_disconnect_threshold_ms: default_silence_disconnect_threshold_ms(),
        }
    }
}

impl Default for BufferConfig {
    fn default() -> (c: Self)
        ensures
            c.capacity_seconds == 300,
            c.drop_policy == DropPolicy::DropOldest,
    {
        BufferConfig {
            capacity_seconds: default_capacity_seconds(),
            drop_policy: default_drop_policy(),
        }
    }
}

impl Default for TranscribeConfig {
    fn default() -> (c: Self)
        ensures
            c.backend == TranscribeBackendType::Aws,
            c.region@ == "ap-northeast-1"@,
            c.language_code@ == "ja-JP"@,
            c.sample_rate == 16000,
            c.max_retries == 5,
            c.timeout_seconds == 10,
            !c.connect_on_startup,
            c.send_buffered_on_reconnect,
    {
        TranscribeConfig {
            backend: default_backend(),
            region: default_region(),
            language_code: default_language_code(),
            sample_rate: default_transcribe_sample_rate(),
            max_retries: default_max_retries(),
            timeout_seconds: default_timeout_seconds(),
            connect_on_startup: false,
            send_buffered_on_reconnect: true,
        }
    }
}

impl Default for OutputConfig {
    fn default() -> (c: Self)
        ensures
            c.wav_output_dir@ == "./recordings"@,
            c.log_level@ == "info"@,
    {
        OutputConfig { wav_output_dir: default_wav_output_dir(), log_level: default_log_level() }
    }
}

impl Default for FlacConfig {
    fn default() -> (c: Self)
        ensures
            c.compression_level == 5,
            c.enabled,
    {
        FlacConfig {
            compression_level: default_flac_compression_level(),
            enabled: default_flac_enabled(),
        }
    }
}

/// The channels of a configuration that names none: two, both enabled.
pub fn default_channel_configs() -> (channels: Vec<ChannelConfig>)
    ensures
        channels@.len() == 2,
        channels@[0].id == 0,
        channels@[0].name@ == "無線機1"@,
        channels@[0].enabled,
        channels@[1].id == 1,
        channels@[1].name@ == "無線機2"@,
        channels@[1].enabled,
{
    let mut channels: Vec<ChannelConfig> = Vec::new();
    channels.push(ChannelConfig { id: 0, name: "無線機1".to_owned(), enabled: true });
    channels.push(ChannelConfig { id: 1, name: "無線機2".to_owned(), enabled: true });
    channels
}

/// Whether the channel at place `a` comes before the one at place `b`: by
/// channel id, and among equal ids by place in the configuration.
pub open spec fn comes_before(channels: Seq<ChannelConfig>, a: int, b: int) -> bool {
    channels[a].id < channels[b].id || (channels[a].id == channels[b].id && a < b)
}

/// Whether `picked` lists exactly the places of the enabled channels, in
/// the order of their channel ids.
pub open spec fn lists_enabled(channels: Seq<ChannelConfig>, picked: Seq<usize>) -> bool {
    &&& forall|k: int| 0 <= k < picked.len() ==> (#[trigger] picked[k]) < channels.len()
    &&& forall|k: int| 0 <= k < picked.len() ==> channels[(#[trigger] picked[k]) as int].enabled
    &&& forall|j: int, k: int|
        0 <= j < k < picked.len() ==> comes_before(
            channels,
            (#[trigger] picked[j]) as int,
            (#[trigger] picked[k]) as int,
        )
    &&& forall|i: int|
        0 <= i < channels.len() && (#[trigger] channels[i]).enabled ==> picked.contains(i as usize)
}

/// The channels that take part in a run: the places in the configuration
/// of the enabled ones, in the order of their channel ids. Each gets a
/// pipeline and a queue, in this order.
pub fn enabled_channels(channels: &Vec<ChannelConfig>) -> (picked: Vec<usize>)
    ensures
        lists_enabled(channels@, picked@),
{
    let mut picked: Vec<usize> = Vec::new();
    let mut i: usize = 0;
    while i < channels.len()
        invariant
            i <= channels.len(),
            forall|k: int| 0 <= k < picked@.len() ==> (#[trigger] picked@[k]) < i,
            forall|k: int|
                0 <= k < picked@.len() ==> channels@[(#[trigger] picked@[k]) as int].enabled,
            forall|j: int, k: int|
                0 <= j < k < picked@.len() ==> comes_before(
                    channels@,
                    (#[trigger] picked@[j]) as int,
                    (#[trigger] picked@[k]) as int,
                ),
            forall|n: int|
                0 <= n < i && (#[trigger] channels@[n]).enabled ==> picked@.contains(n as usize),
        decreases channels.len() - i,
    {
        if channels[i].enabled {
            let id: usize = channels[i].id;
            let mut pos: usize = 0;
            while pos < picked.len() && channels[picked[pos]].id <= id
                invariant
                    i < channels.len(),
                    pos <= picked@.len(),
                    forall|k: int| 0 <= k < picked@.len() ==> (#[trigger] picked@[k]) < i,
                    forall|k: int|
                        0 <= k < pos ==> channels@[(#[trigger] picked@[k]) as int].id <= id,
                decreases picked@.len() - pos,
            {
                pos = pos + 1;
            }
            let ghost before = picked@;
            picked.insert(pos, i);
            proof {
                let after = picked@;
                assert(after == before.insert(pos as int, i));
                assert forall|k: int| pos <= k < before.len() implies channels@[(
                #[trigger] before[k]) as int].id > id by {
                    if k > pos {
                        assert(comes_before(channels@, before[pos as int] as int, before[k] as int));
                    }
                }
                assert forall|j: int, k: int| 0 <= j < k < after.len() implies comes_before(
                    channels@,
                    (#[trigger] after[j]) as int,
                    (#[trigger] after[k]) as int,
                ) by {
                    if k < pos {
                        assert(after[j] == before[j] && after[k] == before[k]);
                    } else if k == pos {
                        assert(after[j] == before[j]);
                    } else if j < pos {
                        assert(after[j] == before[j] && after[k] == before[k - 1]);
                    } else if j == pos {
                        assert(after[k] == before[k - 1]);
                    } else {
                        assert(after[j] == before[j - 1] && after[k] == before[k - 1]);
                    }
                }
                assert forall|k: int| 0 <= k < after.len() implies (#[trigger] after[k]) < i + 1
                    && channels@[after[k] as int].enabled by {
                    if k < pos {
                        assert(after[k] == before[k]);
                    } else if k > pos {
                        assert(after[k] == before[k - 1]);
                    }
                }
                assert forall|n: int| 0 <= n < i + 1 && (#[trigger] channels@[n]).enabled implies after.contains(
                    n as usize,
                ) by {
                    if n < i {
                        let k = choose|k: int| 0 <= k < before.len() && before[k] == n as usize;
                        if k < pos {
                            assert(after[k] == n as usize);
                        } else {
                            assert(after[k + 1] == n as usize);
                        }
                    } else {
                        assert(after[pos as int] == i);
                    }
                }
            }
        }
        i = i + 1;
    }
    picked
}

} // verus!
