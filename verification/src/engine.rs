//! The audio engine's control plane: which back-end, devices and formats are
//! selected, whether the stream pair is running, and which plugins form the
//! processing chain.
//!
//! The engine decides; the surrounding program performs.  Device enumeration
//! is handed in once as a catalogue, and the outcome of starting streams or
//! loading a plugin is handed in as a value.

use crate::format::{
    pick_best_format, picked, BufferSize, FormatPreferences, SampleFormat, SampleRate,
    StreamConfig, SupportedStreamConfig, SupportedStreamConfigRange,
};
use crate::registry::texts;
use vstd::prelude::*;

verus! {

/// The largest block, in frames, that the engine's buffers hold.
pub const MAX_BLOCK_SIZE: usize = 2048;

/// The number of channels of the engine's buffers and of the plugin bus.
pub const ENGINE_CHANNELS: u16 = 2;

/// The sample rate assumed when no device reports one.
pub const DEFAULT_SAMPLE_RATE: u32 = 48000;

/// The block size assumed when no device fixes one.
pub const DEFAULT_BUFFER_SIZE: u32 = 512;

/// The sample rate asked of a newly selected device.
pub const PREFERRED_SAMPLE_RATE: u32 = 48000;

/// The block size asked of a newly selected device.
pub const PREFERRED_BUFFER_SIZE: u32 = 256;

/// Audio configuration for input/output devices.
#[derive(Debug, Clone, Copy)]
pub struct AudioConfig {
    pub sample_rate: u32,
    pub buffer_size: u32,
    pub channels: u16,
}

/// Identity of a loaded plugin; never reused within one engine.
#[derive(Clone, Copy, Debug, PartialEq, Eq, Hash, Structural)]
pub struct PluginId(pub u64);

/// A loaded plugin as shown to the user.
#[derive(Debug)]
pub struct PluginInfo {
    pub id: PluginId,
    pub name: String,
}

/// Why a plugin operation failed.
#[derive(Debug, PartialEq, Eq)]
pub enum PluginError {
    /// The shared library or its factory entry is missing.
    LoadFailed(String),
    /// The plugin does not expose a required interface.
    InterfaceMissing(String),
    /// Bus or processing setup was refused by the plugin.
    ActivationFailed(String),
    /// The editor view could not be created or attached.
    EditorFailed,
}

/// Why an engine operation failed.
#[derive(Debug, PartialEq, Eq)]
pub enum EngineError {
    /// No back-end has the given name.
    BackendNotFound,
    /// The current back-end has no input device of the given name.
    InputNotFound,
    /// The current back-end has no output device of the given name.
    OutputNotFound,
    /// A device needed for the operation is not selected.
    DeviceError,
    /// No usable stream format: none is set, none is supported, or the block
    /// size asked for is beyond what the engine's buffers hold.
    FormatError,
    /// The streams could not be built or started.
    StreamError,
    /// Loading or driving a plugin failed.
    Plugin(PluginError),
    /// No loaded plugin has the given identity.
    PluginNotFound(PluginId),
}

/// A device as enumerated: its name, the configuration ranges it supports
/// and the configuration it prefers.
#[derive(Debug)]
pub struct DeviceInfo {
    pub name: String,
    pub configs: Vec<SupportedStreamConfigRange>,
    pub default_config: Option<SupportedStreamConfig>,
}

/// A back-end as enumerated.
#[derive(Debug)]
pub struct HostInfo {
    pub name: String,
    /// Whether capture and playback must use the same device.
    pub exclusive: bool,
    pub input_devices: Vec<DeviceInfo>,
    pub output_devices: Vec<DeviceInfo>,
    pub default_input: Option<DeviceInfo>,
    pub default_output: Option<DeviceInfo>,
}

/// What the surrounding program has to build for a run.
#[derive(Clone, Copy, Debug, PartialEq, Eq, Structural)]
pub struct StreamPlan {
    pub input_config: StreamConfig,
    pub output_config: StreamConfig,
    /// Channels per frame of the capture stream.
    pub channels: u16,
    /// Frames per block; also the resampler's fixed input length and the
    /// sample count of each process tick.
    pub block_size: u32,
    /// Capacity of the ring between the callbacks: two blocks of all channels.
    pub ring_capacity: u32,
    /// The resampler converts from this rate ...
    pub source_rate: u32,
    /// ... to this one.
    pub target_rate: u32,
}

/// A loaded plugin in the engine's model.
pub struct PluginView {
    pub id: u64,
    pub name: Seq<char>,
    /// Whether the plugin's editor view is attached to a window.
    pub editor_open: bool,
}

/// A plugin in the chain.
struct LoadedPlugin {
    id: PluginId,
    name: String,
    editor_open: bool,
}

/// The engine's state as a mathematical value.
pub struct EngineView {
    /// The catalogue of back-ends, fixed at construction.
    pub hosts: Seq<HostInfo>,
    /// Index of the current back-end in the catalogue.
    pub host: int,
    pub input_device: Option<Seq<char>>,
    pub output_device: Option<Seq<char>>,
    pub input_config: Option<StreamConfig>,
    pub output_config: Option<StreamConfig>,
    /// Whether a capture stream is active.
    pub input_stream: bool,
    /// Whether a playback stream is active.
    pub output_stream: bool,
    pub sample_rate: u32,
    pub buffer_size: u32,
    /// The plugin chain, in processing order.
    pub plugins: Seq<PluginView>,
    /// The identity the next loaded plugin receives.
    pub next_plugin_id: u64,
}

/// Main audio engine: the selection state, the stream pair and the plugin
/// chain.
pub struct AudioEngine {
    hosts: Vec<HostInfo>,
    host: usize,
    input_device: Option<String>,
    output_device: Option<String>,
    input_config: Option<StreamConfig>,
    output_config: Option<StreamConfig>,
    input_stream: bool,
    output_stream: bool,
    current_sample_rate: u32,
    current_buffer_size: u32,
    plugins: Vec<LoadedPlugin>,
    next_plugin_id: u64,
}

/// The text of an optional string.
pub open spec fn opt_text(o: Option<String>) -> Option<Seq<char>> {
    match o {
        Some(s) => Some(s@),
        None => None,
    }
}

/// The model of a list of loaded plugins.
closed spec fn plugin_views(v: Seq<LoadedPlugin>) -> Seq<PluginView> {
    v.map_values(
        |p: LoadedPlugin| PluginView { id: p.id.0, name: p.name@, editor_open: p.editor_open },
    )
}

/// The names of the back-ends of a catalogue.
pub open spec fn host_names(hosts: Seq<HostInfo>) -> Seq<Seq<char>> {
    hosts.map_values(|h: HostInfo| h.name@)
}

/// The names of a list of devices.
pub open spec fn device_names(devices: Seq<DeviceInfo>) -> Seq<Seq<char>> {
    devices.map_values(|d: DeviceInfo| d.name@)
}

/// The position of the first element equal to `name`, if any.
pub open spec fn first_index(names: Seq<Seq<char>>, name: Seq<char>) -> Option<int>
    decreases names.len(),
{
    if names.len() == 0 {
        None
    } else if names[0] == name {
        Some(0)
    } else {
        match first_index(names.skip(1), name) {
            Some(i) => Some(i + 1),
            None => None,
        }
    }
}

/// `first_index` finds the earliest occurrence, and finds none only if there
/// is none.
pub proof fn lemma_first_index(names: Seq<Seq<char>>, name: Seq<char>)
    ensures
        match first_index(names, name) {
            Some(i) => 0 <= i < names.len() && names[i] == name && forall|j: int|
                0 <= j < i ==> names[j] != name,
            None => forall|j: int| 0 <= j < names.len() ==> names[j] != name,
        },
    decreases names.len(),
{
    if names.len() > 0 && names[0] != name {
        let rest = names.skip(1);
        lemma_first_index(rest, name);
        match first_index(rest, name) {
            Some(i) => {
                assert forall|j: int| 0 <= j < i + 1 implies names[j] != name by {
                    if j > 0 {
                        assert(rest[j - 1] == names[j]);
                    }
                }
            },
            None => {
                assert forall|j: int| 0 <= j < names.len() implies names[j] != name by {
                    if j > 0 {
                        assert(rest[j - 1] == names[j]);
                    }
                }
            },
        }
    }
}

/// The name of a device, if there is one.
pub open spec fn name_of(d: Option<DeviceInfo>) -> Option<Seq<char>> {
    match d {
        Some(d) => Some(d.name@),
        None => None,
    }
}

/// The stream configuration a device prefers, if it reports one.
pub open spec fn preferred_config(d: DeviceInfo) -> Option<StreamConfig> {
    match d.default_config {
        Some(c) => Some(c.spec_config()),
        None => None,
    }
}

/// The configuration after a change of back-end: that of the new default
/// device, or the previous one where the back-end has no default device.
pub open spec fn config_after_switch(d: Option<DeviceInfo>, previous: Option<StreamConfig>)
    -> Option<StreamConfig> {
    match d {
        Some(d) => preferred_config(d),
        None => previous,
    }
}

/// The block size a configuration fixes, or the fallback if it fixes none.
pub open spec fn fixed_or(b: BufferSize, fallback: u32) -> u32 {
    match b {
        BufferSize::Fixed(n) => n,
        BufferSize::Default => fallback,
    }
}

/// The state with both streams stopped.
pub open spec fn paused(s: EngineView) -> EngineView {
    EngineView { input_stream: false, output_stream: false, ..s }
}

/// The state with the current rate and block size taken from the input
/// configuration, or from the output configuration if there is no input
/// configuration.
pub open spec fn settings_refreshed(s: EngineView) -> EngineView {
    match s.input_config {
        Some(c) => EngineView {
            sample_rate: c.sample_rate.0,
            buffer_size: fixed_or(c.buffer_size, s.buffer_size),
            ..s
        },
        None => match s.output_config {
            Some(c) => EngineView {
                sample_rate: c.sample_rate.0,
                buffer_size: fixed_or(c.buffer_size, s.buffer_size),
                ..s
            },
            None => s,
        },
    }
}

/// The preferences with which a newly selected device's format is chosen.
pub open spec fn selection_preferences() -> FormatPreferences {
    FormatPreferences {
        sample_rate: Some(PREFERRED_SAMPLE_RATE),
        buffer_size: Some(PREFERRED_BUFFER_SIZE),
        sample_format: Some(SampleFormat::I32),
        channels: Some(ENGINE_CHANNELS),
    }
}

/// The state a new engine starts in.
pub open spec fn initial_state(hosts: Seq<HostInfo>, default_host: int) -> EngineView {
    let h = hosts[default_host];
    let both = h.default_input is Some && h.default_output is Some;
    let input_config = if both {
        preferred_config(h.default_input->Some_0)
    } else {
        None
    };
    EngineView {
        hosts,
        host: default_host,
        input_device: name_of(h.default_input),
        output_device: name_of(h.default_output),
        input_config,
        output_config: if both {
            preferred_config(h.default_output->Some_0)
        } else {
            None
        },
        input_stream: false,
        output_stream: false,
        sample_rate: match input_config {
            Some(c) => c.sample_rate.0,
            None => DEFAULT_SAMPLE_RATE,
        },
        buffer_size: DEFAULT_BUFFER_SIZE,
        plugins: Seq::empty(),
        next_plugin_id: 0,
    }
}

/// The state after the back-end at `idx` was selected: its default devices
/// and their preferred configurations; on an exclusive back-end the output
/// side mirrors the input side.
pub open spec fn host_selected(s: EngineView, idx: int) -> EngineView {
    let h = s.hosts[idx];
    let input_device = name_of(h.default_input);
    let input_config = config_after_switch(h.default_input, s.input_config);
    settings_refreshed(
        EngineView {
            host: idx,
            input_device,
            input_config,
            output_device: if h.exclusive {
                input_device
            } else {
                name_of(h.default_output)
            },
            output_config: if h.exclusive {
                input_config
            } else {
                config_after_switch(h.default_output, s.output_config)
            },
            input_stream: false,
            output_stream: false,
            ..s
        },
    )
}

/// The state after an attempt to select a back-end by name.
pub open spec fn after_select_host(s: EngineView, name: Seq<char>) -> EngineView {
    match first_index(host_names(s.hosts), name) {
        Some(i) => host_selected(s, i),
        None => paused(s),
    }
}

/// The format chosen for the device of the given name among `devices`, if
/// the device exists and supports any.
pub open spec fn chosen_config(devices: Seq<DeviceInfo>, name: Seq<char>) -> Option<StreamConfig> {
    match first_index(device_names(devices), name) {
        Some(i) => match picked(devices[i].configs@, selection_preferences()) {
            Some(c) => Some(c.spec_config()),
            None => None,
        },
        None => None,
    }
}

/// The state after an attempt to select an input device by name.
pub open spec fn after_select_input(s: EngineView, name: Seq<char>) -> EngineView {
    let h = s.hosts[s.host];
    match chosen_config(h.input_devices@, name) {
        Some(c) => settings_refreshed(
            EngineView {
                input_device: Some(name),
                input_config: Some(c),
                output_device: if h.exclusive {
                    Some(name)
                } else {
                    s.output_device
                },
                output_config: if h.exclusive {
                    Some(c)
                } else {
                    s.output_config
                },
                input_stream: false,
                output_stream: false,
                ..s
            },
        ),
        None => paused(s),
    }
}

/// The state after an attempt to select an output device by name.
pub open spec fn after_select_output(s: EngineView, name: Seq<char>) -> EngineView {
    let h = s.hosts[s.host];
    match chosen_config(h.output_devices@, name) {
        Some(c) => settings_refreshed(
            EngineView {
                output_device: Some(name),
                output_config: Some(c),
                input_device: if h.exclusive {
                    Some(name)
                } else {
                    s.input_device
                },
                input_config: if h.exclusive {
                    Some(c)
                } else {
                    s.input_config
                },
                input_stream: false,
                output_stream: false,
                ..s
            },
        ),
        None => paused(s),
    }
}

/// The error of a failed device selection: the device is unknown, or it
/// supports no format.
pub open spec fn selection_error(devices: Seq<DeviceInfo>, name: Seq<char>, unknown: EngineError)
    -> EngineError {
    if first_index(device_names(devices), name) is None {
        unknown
    } else {
        EngineError::FormatError
    }
}

/// A configuration with another sample rate.
pub open spec fn at_rate(c: Option<StreamConfig>, hz: u32) -> Option<StreamConfig> {
    match c {
        Some(c) => Some(StreamConfig { sample_rate: SampleRate(hz), ..c }),
        None => None,
    }
}

/// A configuration with a fixed block size.
pub open spec fn at_block_size(c: Option<StreamConfig>, n: u32) -> Option<StreamConfig> {
    match c {
        Some(c) => Some(StreamConfig { buffer_size: BufferSize::Fixed(n), ..c }),
        None => None,
    }
}

/// The state after the sample rate was set.
pub open spec fn after_set_sample_rate(s: EngineView, hz: u32) -> EngineView {
    EngineView {
        sample_rate: hz,
        input_config: at_rate(s.input_config, hz),
        output_config: at_rate(s.output_config, hz),
        input_stream: false,
        output_stream: false,
        ..s
    }
}

/// The state after an attempt to set the block size: a size that the
/// engine's buffers hold becomes the size of the engine and of both
/// configurations; a larger one is refused and only the streams are stopped.
pub open spec fn after_set_buffer_size(s: EngineView, n: u32) -> EngineView {
    if n <= MAX_BLOCK_SIZE {
        EngineView {
            buffer_size: n,
            input_config: at_block_size(s.input_config, n),
            output_config: at_block_size(s.output_config, n),
            input_stream: false,
            output_stream: false,
            ..s
        }
    } else {
        paused(s)
    }
}

/// What a run has to build in the given state, or why it cannot start.
pub open spec fn planned(s: EngineView) -> Result<StreamPlan, EngineError> {
    if s.input_device is None || s.output_device is None {
        Err(EngineError::DeviceError)
    } else if s.input_config is None || s.output_config is None {
        Err(EngineError::FormatError)
    } else {
        let i = s.input_config->Some_0;
        let o = s.output_config->Some_0;
        if i.channels == 0 || i.channels > ENGINE_CHANNELS || s.buffer_size == 0 || s.buffer_size
            > MAX_BLOCK_SIZE || i.sample_rate.0 == 0 || o.sample_rate.0 == 0 {
            Err(EngineError::FormatError)
        } else {
            Ok(
                StreamPlan {
                    input_config: i,
                    output_config: o,
                    channels: i.channels,
                    block_size: s.buffer_size,
                    ring_capacity: (s.buffer_size * i.channels * 2) as u32,
                    source_rate: i.sample_rate.0,
                    target_rate: o.sample_rate.0,
                },
            )
        }
    }
}

/// The state after a run was attempted and the surrounding program reported
/// whether both streams started.
pub open spec fn after_run(s: EngineView, started: bool) -> EngineView {
    let on = planned(s) is Ok && started;
    EngineView { input_stream: on, output_stream: on, ..s }
}

/// The result of a run.
pub open spec fn run_result(s: EngineView, started: bool) -> Result<StreamPlan, EngineError> {
    match planned(s) {
        Ok(p) => if started {
            Ok(p)
        } else {
            Err(EngineError::StreamError)
        },
        Err(e) => Err(e),
    }
}

/// Whether a chain holds a plugin of the given identity.
pub open spec fn is_loaded(plugins: Seq<PluginView>, id: u64) -> bool {
    exists|i: int| 0 <= i < plugins.len() && plugins[i].id == id
}

/// The identities of the plugins in a chain, as a set.
pub open spec fn loaded_ids(plugins: Seq<PluginView>) -> Set<u64> {
    Set::new(|id: u64| is_loaded(plugins, id))
}

/// The chain without the plugins of the given identity, order kept.
pub open spec fn chain_without(plugins: Seq<PluginView>, id: u64) -> Seq<PluginView>
    decreases plugins.len(),
{
    if plugins.len() == 0 {
        plugins
    } else if plugins.last().id == id {
        chain_without(plugins.drop_last(), id)
    } else {
        chain_without(plugins.drop_last(), id).push(plugins.last())
    }
}

/// The state after a plugin of the given name was loaded.
pub open spec fn after_load(s: EngineView, name: Seq<char>) -> EngineView {
    EngineView {
        plugins: s.plugins.push(PluginView { id: s.next_plugin_id, name, editor_open: false }),
        next_plugin_id: (s.next_plugin_id + 1) as u64,
        ..s
    }
}

/// The state after the plugin of the given identity was unloaded.
pub open spec fn after_unload(s: EngineView, id: u64) -> EngineView {
    EngineView { plugins: chain_without(s.plugins, id), ..s }
}

/// Identities in a chain grow along it and lie below the next identity.
pub open spec fn chain_ordered(plugins: Seq<PluginView>, next: u64) -> bool {
    &&& forall|i: int, j: int|
        0 <= i < j < plugins.len() ==> (#[trigger] plugins[i]).id < (#[trigger] plugins[j]).id
    &&& forall|i: int| 0 <= i < plugins.len() ==> (#[trigger] plugins[i]).id < next
}

/// Whether a configuration, if there is one and it fixes a block size,
/// fixes one that the engine's buffers hold.
pub open spec fn within_block_cap(c: Option<StreamConfig>) -> bool {
    match c {
        Some(c) => match c.buffer_size {
            BufferSize::Fixed(n) => n <= MAX_BLOCK_SIZE,
            BufferSize::Default => true,
        },
        None => true,
    }
}

/// Validity of an engine state: the current back-end exists, the streams
/// exist as a pair or not at all, no block size exceeds what the buffers
/// hold, and plugin identities are fresh.
pub open spec fn valid_state(s: EngineView) -> bool {
    &&& 0 <= s.host < s.hosts.len()
    &&& s.input_stream == s.output_stream
    &&& s.buffer_size <= MAX_BLOCK_SIZE
    &&& within_block_cap(s.input_config)
    &&& within_block_cap(s.output_config)
    &&& chain_ordered(s.plugins, s.next_plugin_id)
}

/// The operating system family the program runs on.
#[derive(Clone, Copy, Debug, PartialEq, Eq, Structural)]
pub enum Platform {
    Windows,
    MacOs,
    Other,
}

/// Whether a back-end requires capture and playback on the same device:
/// the back-end named `ASIO` everywhere, and `CoreAudio` on macOS.
pub open spec fn exclusive_backend(name: Seq<char>, platform: Platform) -> bool {
    name == "ASIO"@ || (platform == Platform::MacOs && name == "CoreAudio"@)
}

/// Decides whether a back-end requires capture and playback on the same
/// device.
pub fn is_exclusive_backend(name: &str, platform: Platform) -> (r: bool)
    ensures
        r == exclusive_backend(name@, platform),
{
    let given: String = String::from_str(name);
    let asio: String = String::from_str("ASIO");
    let core_audio: String = String::from_str("CoreAudio");
    given == asio || (platform == Platform::MacOs && given == core_audio)
}

/// The name of an optional device.
fn device_name(d: &Option<DeviceInfo>) -> (r: Option<String>)
    ensures
        opt_text(r) == name_of(*d),
{
    match d {
        Some(d) => Some(d.name.clone()),
        None => None,
    }
}

/// The stream configuration a device prefers.
fn device_config(d: &DeviceInfo) -> (r: Option<StreamConfig>)
    ensures
        r == preferred_config(*d),
{
    match &d.default_config {
        Some(c) => Some(c.config()),
        None => None,
    }
}

/// The configuration to use after a change of back-end.
fn switched_config(d: &Option<DeviceInfo>, previous: Option<StreamConfig>) -> (r: Option<
    StreamConfig,
>)
    ensures
        r == config_after_switch(*d, previous),
{
    match d {
        Some(d) => device_config(d),
        None => previous,
    }
}

/// A copy of an optional string.
fn clone_text(o: &Option<String>) -> (r: Option<String>)
    ensures
        opt_text(r) == opt_text(*o),
{
    match o {
        Some(s) => Some(s.clone()),
        None => None,
    }
}

/// The first back-end of the given name.
fn find_host(hosts: &Vec<HostInfo>, name: &str) -> (r: Option<usize>)
    ensures
        match r {
            Some(i) => first_index(host_names(hosts@), name@) == Some(i as int) && i
                < hosts@.len(),
            None => first_index(host_names(hosts@), name@) is None,
        },
{
    let needle: String = String::from_str(name);
    let ghost names = host_names(hosts@);
    let mut i: usize = 0;
    assert(names.skip(0) =~= names);
    while i < hosts.len()
        invariant
            0 <= i <= hosts.len(),
            needle@ == name@,
            names == host_names(hosts@),
            first_index(names, name@) == match first_index(names.skip(i as int), name@) {
                Some(k) => Some(k + i),
                None => None,
            },
        decreases hosts.len() - i,
    {
        assert(names.skip(i as int)[0] == hosts@[i as int].name@);
        assert(names.skip(i as int).skip(1) =~= names.skip(i + 1));
        if hosts[i].name == needle {
            return Some(i);
        }
        i = i + 1;
    }
    assert(names.skip(i as int).len() == 0);
    None
}

/// The first device of the given name.
fn find_device(devices: &Vec<DeviceInfo>, name: &str) -> (r: Option<usize>)
    ensures
        match r {
            Some(i) => first_index(device_names(devices@), name@) == Some(i as int) && i
                < devices@.len(),
            None => first_index(device_names(devices@), name@) is None,
        },
{
    let needle: String = String::from_str(name);
    let ghost names = device_names(devices@);
    let mut i: usize = 0;
    assert(names.skip(0) =~= names);
    while i < devices.len()
        invariant
            0 <= i <= devices.len(),
            needle@ == name@,
            names == device_names(devices@),
            first_index(names, name@) == match first_index(names.skip(i as int), name@) {
                Some(k) => Some(k + i),
                None => None,
            },
        decreases devices.len() - i,
    {
        assert(names.skip(i as int)[0] == devices@[i as int].name@);
        assert(names.skip(i as int).skip(1) =~= names.skip(i + 1));
        if devices[i].name == needle {
            return Some(i);
        }
        i = i + 1;
    }
    assert(names.skip(i as int).len() == 0);
    None
}

/// Chooses the format for the device of the given name.
fn choose_config(devices: &Vec<DeviceInfo>, name: &str, unknown: EngineError) -> (r: Result<
    StreamConfig,
    EngineError,
>)
    ensures
        match chosen_config(devices@, name@) {
            Some(c) => r == Ok::<StreamConfig, EngineError>(c),
            None => r == Err::<StreamConfig, EngineError>(
                selection_error(devices@, name@, unknown),
            ),
        },
{
    match find_device(devices, name) {
        None => Err(unknown),
        Some(i) => {
            let best = pick_best_format(
                &devices[i].configs,
                Some(PREFERRED_SAMPLE_RATE),
                Some(PREFERRED_BUFFER_SIZE),
                Some(SampleFormat::I32),
                Some(ENGINE_CHANNELS),
            );
            match best {
                Some(c) => Ok(c.config()),
                None => Err(EngineError::FormatError),
            }
        },
    }
}

impl AudioEngine {
    /// The engine's state as a mathematical value.
    pub closed spec fn view(&self) -> EngineView {
        EngineView {
            hosts: self.hosts@,
            host: self.host as int,
            input_device: opt_text(self.input_device),
            output_device: opt_text(self.output_device),
            input_config: self.input_config,
            output_config: self.output_config,
            input_stream: self.input_stream,
            output_stream: self.output_stream,
            sample_rate: self.current_sample_rate,
            buffer_size: self.current_buffer_size,
            plugins: plugin_views(self.plugins@),
            next_plugin_id: self.next_plugin_id,
        }
    }

    /// The engine's state is valid.
    pub open spec fn wf(&self) -> bool {
        valid_state(self@)
    }

    /// An engine over the enumerated back-ends, with the default back-end's
    /// default devices selected, no stream and no plugin.
    pub fn new(hosts: Vec<HostInfo>, default_host: usize) -> (r: Self)
        requires
            default_host < hosts@.len(),
        ensures
            r.wf(),
            r@ == initial_state(hosts@, default_host as int),
    {
        let h = &hosts[default_host];
        let input_device = device_name(&h.default_input);
        let output_device = device_name(&h.default_output);
        let mut input_config: Option<StreamConfig> = None;
        let mut output_config: Option<StreamConfig> = None;
        match &h.default_input {
            Some(i) => match &h.default_output {
                Some(o) => {
                    input_config = device_config(i);
                    output_config = device_config(o);
                },
                None => {},
            },
            None => {},
        }
        let current_sample_rate: u32 = match input_config {
            Some(c) => c.sample_rate.0,
            None => DEFAULT_SAMPLE_RATE,
        };
        let r = AudioEngine {
            hosts,
            host: default_host,
            input_device,
            output_device,
            input_config,
            output_config,
            input_stream: false,
            output_stream: false,
            current_sample_rate,
            current_buffer_size: DEFAULT_BUFFER_SIZE,
            plugins: Vec::new(),
            next_plugin_id: 0,
        };
        assert(r@.plugins =~= Seq::empty());
        r
    }

    /// Stops both streams.
    fn stop_streams(&mut self)
        ensures
            final(self)@ == paused(old(self)@),
    {
        self.input_stream = false;
        self.output_stream = false;
    }

    /// Takes the current rate and block size from the configurations.
    fn update_current_settings(&mut self)
        ensures
            final(self)@ == settings_refreshed(old(self)@),
    {
        match self.input_config {
            Some(c) => {
                self.current_sample_rate = c.sample_rate.0;
                match c.buffer_size {
                    BufferSize::Fixed(n) => {
                        self.current_buffer_size = n;
                    },
                    BufferSize::Default => {},
                }
            },
            None => match self.output_config {
                Some(c) => {
                    self.current_sample_rate = c.sample_rate.0;
                    match c.buffer_size {
                        BufferSize::Fixed(n) => {
                            self.current_buffer_size = n;
                        },
                        BufferSize::Default => {},
                    }
                },
                None => {},
            },
        }
    }

    /// Switches to the back-end of the given name and to its default
    /// devices.  The streams are stopped in any case and stay stopped.
    pub fn select_host(&mut self, host_name: &str) -> (r: Result<(), EngineError>)
        requires
            old(self).wf(),
        ensures
            final(self).wf(),
            final(self)@ == after_select_host(old(self)@, host_name@),
            !final(self)@.input_stream && !final(self)@.output_stream,
            r is Ok <==> first_index(host_names(old(self)@.hosts), host_name@) is Some,
            r is Err ==> r->Err_0 == EngineError::BackendNotFound,
    {
        self.stop_streams();
        match find_host(&self.hosts, host_name) {
            None => Err(EngineError::BackendNotFound),
            Some(i) => {
                let input_device = device_name(&self.hosts[i].default_input);
                let input_config = switched_config(&self.hosts[i].default_input, self.input_config);
                let exclusive: bool = self.hosts[i].exclusive;
                if exclusive {
                    self.output_device = clone_text(&input_device);
                    self.output_config = input_config;
                } else {
                    self.output_device = device_name(&self.hosts[i].default_output);
                    self.output_config = switched_config(
                        &self.hosts[i].default_output,
                        self.output_config,
                    );
                }
                self.host = i;
                self.input_device = input_device;
                self.input_config = input_config;
                self.update_current_settings();
                Ok(())
            },
        }
    }

    /// Selects the input device of the given name on the current back-end
    /// and chooses its format.  On an exclusive back-end the output side is
    /// set to the same device and format.  The streams are stopped in any
    /// case and stay stopped; on an error nothing else changes.
    pub fn select_input(&mut self, device_name: &str) -> (r: Result<(), EngineError>)
        requires
            old(self).wf(),
        ensures
            final(self).wf(),
            final(self)@ == after_select_input(old(self)@, device_name@),
            !final(self)@.input_stream && !final(self)@.output_stream,
            r is Ok <==> chosen_config(
                old(self)@.hosts[old(self)@.host].input_devices@,
                device_name@,
            ) is Some,
            r is Err ==> r->Err_0 == selection_error(
                old(self)@.hosts[old(self)@.host].input_devices@,
                device_name@,
                EngineError::InputNotFound,
            ),
    {
        self.stop_streams();
        let chosen = choose_config(
            &self.hosts[self.host].input_devices,
            device_name,
            EngineError::InputNotFound,
        );
        match chosen {
            Err(e) => Err(e),
            Ok(c) => {
                let exclusive: bool = self.hosts[self.host].exclusive;
                self.input_device = Some(String::from_str(device_name));
                self.input_config = Some(c);
                if exclusive {
                    self.output_device = Some(String::from_str(device_name));
                    self.output_config = Some(c);
                }
                self.update_current_settings();
                Ok(())
            },
        }
    }

    /// Selects the output device of the given name on the current back-end
    /// and chooses its format.  On an exclusive back-end the input side is
    /// set to the same device and format.  The streams are stopped in any
    /// case and stay stopped; on an error nothing else changes.
    pub fn select_output(&mut self, device_name: &str) -> (r: Result<(), EngineError>)
        requires
            old(self).wf(),
        ensures
            final(self).wf(),
            final(self)@ == after_select_output(old(self)@, device_name@),
            !final(self)@.input_stream && !final(self)@.output_stream,
            r is Ok <==> chosen_config(
                old(self)@.hosts[old(self)@.host].output_devices@,
                device_name@,
            ) is Some,
            r is Err ==> r->Err_0 == selection_error(
                old(self)@.hosts[old(self)@.host].output_devices@,
                device_name@,
                EngineError::OutputNotFound,
            ),
    {
        self.stop_streams();
        let chosen = choose_config(
            &self.hosts[self.host].output_devices,
            device_name,
            EngineError::OutputNotFound,
        );
        match chosen {
            Err(e) => Err(e),
            Ok(c) => {
                let exclusive: bool = self.hosts[self.host].exclusive;
                self.output_device = Some(String::from_str(device_name));
                self.output_config = Some(c);
                if exclusive {
                    self.input_device = Some(String::from_str(device_name));
                    self.input_config = Some(c);
                }
                self.update_current_settings();
                Ok(())
            },
        }
    }

    /// Sets the sample rate of the engine and of both configurations.  The
    /// streams are stopped and stay stopped.
    pub fn set_sample_rate(&mut self, sample_rate: u32) -> (r: Result<(), EngineError>)
        requires
            old(self).wf(),
        ensures
            final(self).wf(),
            final(self)@ == after_set_sample_rate(old(self)@, sample_rate),
            !final(self)@.input_stream && !final(self)@.output_stream,
            r is Ok,
    {
        self.stop_streams();
        self.current_sample_rate = sample_rate;
        match self.input_config {
            Some(c) => {
                self.input_config = Some(
                    StreamConfig {
                        channels: c.channels,
                        sample_rate: SampleRate(sample_rate),
                        buffer_size: c.buffer_size,
                    },
                );
            },
            None => {},
        }
        match self.output_config {
            Some(c) => {
                self.output_config = Some(
                    StreamConfig {
                        channels: c.channels,
                        sample_rate: SampleRate(sample_rate),
                        buffer_size: c.buffer_size,
                    },
                );
            },
            None => {},
        }
        Ok(())
    }

    /// Sets the block size of the engine and of both configurations.  A size
    /// beyond what the engine's buffers hold is refused and changes nothing.
    /// The streams are stopped in any case and stay stopped.
    pub fn set_buffer_size(&mut self, buffer_size: u32) -> (r: Result<(), EngineError>)
        requires
            old(self).wf(),
        ensures
            final(self).wf(),
            final(self)@ == after_set_buffer_size(old(self)@, buffer_size),
            !final(self)@.input_stream && !final(self)@.output_stream,
            final(self)@.buffer_size <= MAX_BLOCK_SIZE,
            r is Ok <==> buffer_size <= MAX_BLOCK_SIZE,
            r is Ok ==> final(self)@.buffer_size == buffer_size,
            r is Err ==> r->Err_0 == EngineError::FormatError && final(self)@ == paused(
                old(self)@,
            ),
    {
        self.stop_streams();
        if buffer_size > 2048 {
            return Err(EngineError::FormatError);
        }
        self.current_buffer_size = buffer_size;
        match self.input_config {
            Some(c) => {
                self.input_config = Some(
                    StreamConfig {
                        channels: c.channels,
                        sample_rate: c.sample_rate,
                        buffer_size: BufferSize::Fixed(buffer_size),
                    },
                );
            },
            None => {},
        }
        match self.output_config {
            Some(c) => {
                self.output_config = Some(
                    StreamConfig {
                        channels: c.channels,
                        sample_rate: c.sample_rate,
                        buffer_size: BufferSize::Fixed(buffer_size),
                    },
                );
            },
            None => {},
        }
        Ok(())
    }

    /// What a run would have to build in the current state: the two stream
    /// configurations, the block size, the ring capacity and the rates the
    /// resampler converts between.
    pub fn stream_plan(&self) -> (r: Result<StreamPlan, EngineError>)
        ensures
            r == planned(self@),
    {
        if self.input_device.is_none() || self.output_device.is_none() {
            return Err(EngineError::DeviceError);
        }
        match self.input_config {
            None => Err(EngineError::FormatError),
            Some(i) => match self.output_config {
                None => Err(EngineError::FormatError),
                Some(o) => {
                    if i.channels == 0 || i.channels > ENGINE_CHANNELS
                        || self.current_buffer_size == 0 || self.current_buffer_size
                        > 2048 || i.sample_rate.0 == 0 || o.sample_rate.0 == 0 {
                        Err(EngineError::FormatError)
                    } else {
                        let per_block: u32 = self.current_buffer_size * 2;
                        let ring_capacity: u32 = if i.channels == 1 {
                            per_block
                        } else {
                            per_block * 2
                        };
                        assert(self.current_buffer_size * i.channels * 2 == ring_capacity) by {
                            if i.channels == 1 {
                                assert(self.current_buffer_size * 1 * 2 == per_block);
                            } else {
                                assert(i.channels == 2);
                                assert(self.current_buffer_size * 2 * 2 == per_block * 2);
                            }
                        }
                        Ok(
                            StreamPlan {
                                input_config: i,
                                output_config: o,
                                channels: i.channels,
                                block_size: self.current_buffer_size,
                                ring_capacity,
                                source_rate: i.sample_rate.0,
                                target_rate: o.sample_rate.0,
                            },
                        )
                    }
                },
            },
        }
    }

    /// Starts audio processing.  The surrounding program builds and starts
    /// the streams that `stream_plan` describes and reports here whether
    /// both started.  Both streams are then recorded as active, or neither.
    pub fn run(&mut self, streams_started: bool) -> (r: Result<StreamPlan, EngineError>)
        requires
            old(self).wf(),
        ensures
            final(self).wf(),
            final(self)@ == after_run(old(self)@, streams_started),
            r == run_result(old(self)@, streams_started),
            final(self)@.input_stream == final(self)@.output_stream,
            final(self)@.input_stream <==> r is Ok,
    {
        match self.stream_plan() {
            Err(e) => {
                self.stop_streams();
                Err(e)
            },
            Ok(p) => {
                self.input_stream = streams_started;
                self.output_stream = streams_started;
                if streams_started {
                    Ok(p)
                } else {
                    Err(EngineError::StreamError)
                }
            },
        }
    }
}

/// Removing an identity that the chain does not hold changes nothing.
pub proof fn lemma_chain_without_absent(plugins: Seq<PluginView>, id: u64)
    requires
        !is_loaded(plugins, id),
    ensures
        chain_without(plugins, id) == plugins,
    decreases plugins.len(),
{
    if plugins.len() > 0 {
        let front = plugins.drop_last();
        assert(plugins[plugins.len() - 1].id != id);
        assert(!is_loaded(front, id)) by {
            if is_loaded(front, id) {
                let i = choose|i: int| 0 <= i < front.len() && front[i].id == id;
                assert(plugins[i].id == id);
            }
        }
        lemma_chain_without_absent(front, id);
        assert(front.push(plugins.last()) =~= plugins);
    }
}

/// Removing the identity held at position `k` of a chain of distinct
/// identities takes out exactly that position.
pub proof fn lemma_chain_without_at(plugins: Seq<PluginView>, next: u64, k: int)
    requires
        chain_ordered(plugins, next),
        0 <= k < plugins.len(),
    ensures
        chain_without(plugins, plugins[k].id) == plugins.remove(k),
        chain_ordered(plugins.remove(k), next),
    decreases plugins.len(),
{
    let id = plugins[k].id;
    let front = plugins.drop_last();
    assert(chain_ordered(front, next));
    if k == plugins.len() - 1 {
        assert(!is_loaded(front, id)) by {
            if is_loaded(front, id) {
                let i = choose|i: int| 0 <= i < front.len() && front[i].id == id;
                assert(plugins[i].id < plugins[k].id);
            }
        }
        lemma_chain_without_absent(front, id);
        assert(plugins.remove(k) =~= front);
    } else {
        assert(plugins[k].id < plugins[plugins.len() - 1].id);
        lemma_chain_without_at(front, next, k);
        assert(front[k] == plugins[k]);
        assert(front.remove(k).push(plugins.last()) =~= plugins.remove(k));
    }
    let rest = plugins.remove(k);
    assert forall|i: int, j: int| 0 <= i < j < rest.len() implies (#[trigger] rest[i]).id < (
    #[trigger] rest[j]).id by {
        let a = if i < k { i } else { i + 1 };
        let b = if j < k { j } else { j + 1 };
        assert(plugins[a].id < plugins[b].id);
    }
    assert forall|i: int| 0 <= i < rest.len() implies (#[trigger] rest[i]).id < next by {
        let a = if i < k { i } else { i + 1 };
        assert(plugins[a].id < next);
    }
}

impl AudioEngine {
    /// Records the outcome of loading a plugin.  A plugin that loaded, of
    /// the given display name, is appended to the chain under a fresh
    /// identity, which is returned.  A failed load changes nothing, and so
    /// does a load when every identity has been given out.
    pub fn load_plugin(&mut self, loaded: Result<String, PluginError>) -> (r: Result<
        PluginId,
        EngineError,
    >)
        requires
            old(self).wf(),
        ensures
            final(self).wf(),
            match loaded {
                Ok(name) => if old(self)@.next_plugin_id < u64::MAX {
                    r == Ok::<PluginId, EngineError>(PluginId(old(self)@.next_plugin_id))
                        && final(self)@ == after_load(old(self)@, name@) && !is_loaded(
                        old(self)@.plugins,
                        old(self)@.next_plugin_id,
                    ) && is_loaded(final(self)@.plugins, old(self)@.next_plugin_id)
                } else {
                    r is Err && r->Err_0 is Plugin && r->Err_0->Plugin_0 is LoadFailed
                        && r->Err_0->Plugin_0->LoadFailed_0@ == "plugin identities exhausted"@
                        && final(self)@ == old(self)@
                },
                Err(e) => r == Err::<PluginId, EngineError>(EngineError::Plugin(e)) && final(self)@ == old(self)@,
            },
    {
        match loaded {
            Err(e) => Err(EngineError::Plugin(e)),
            Ok(name) => {
                if self.next_plugin_id == u64::MAX {
                    return Err(
                        EngineError::Plugin(
                            PluginError::LoadFailed(String::from_str("plugin identities exhausted")),
                        ),
                    );
                }
                let id = PluginId(self.next_plugin_id);
                let ghost before = self.plugins@;
                proof {
                    lemma_load_extends_chain(self@, name@, 0);
                }
                self.plugins.push(LoadedPlugin { id, name, editor_open: false });
                self.next_plugin_id = self.next_plugin_id + 1;
                assert(plugin_views(self.plugins@) =~= plugin_views(before).push(
                    PluginView { id: id.0, name: name@, editor_open: false },
                ));
                Ok(id)
            },
        }
    }

    /// Whether a plugin of the given identity is in the chain.
    pub fn is_plugin_loaded(&self, plugin_id: PluginId) -> (r: bool)
        ensures
            r == is_loaded(self@.plugins, plugin_id.0),
    {
        self.position_of(plugin_id).is_some()
    }

    /// The position in the chain of the plugin of the given identity.
    fn position_of(&self, plugin_id: PluginId) -> (r: Option<usize>)
        ensures
            match r {
                Some(k) => k < self@.plugins.len() && self@.plugins[k as int].id == plugin_id.0,
                None => !is_loaded(self@.plugins, plugin_id.0),
            },
    {
        let mut i: usize = 0;
        while i < self.plugins.len()
            invariant
                0 <= i <= self.plugins.len(),
                forall|j: int| 0 <= j < i ==> self@.plugins[j].id != plugin_id.0,
            decreases self.plugins.len() - i,
        {
            if self.plugins[i].id.0 == plugin_id.0 {
                return Some(i);
            }
            i = i + 1;
        }
        None
    }

    /// Takes the plugin of the given identity out of the chain; the order
    /// of the others stays.  The identity is not given out again.
    pub fn unload_plugin(&mut self, plugin_id: PluginId) -> (r: Result<(), EngineError>)
        requires
            old(self).wf(),
        ensures
            final(self).wf(),
            final(self)@ == after_unload(old(self)@, plugin_id.0),
            !is_loaded(final(self)@.plugins, plugin_id.0),
            is_loaded(old(self)@.plugins, plugin_id.0) ==> r == Ok::<(), EngineError>(()),
            !is_loaded(old(self)@.plugins, plugin_id.0) ==> r == Err::<(), EngineError>(
                EngineError::PluginNotFound(plugin_id),
            ) && final(self)@ == old(self)@,
    {
        match self.position_of(plugin_id) {
            None => {
                proof {
                    lemma_chain_without_absent(self@.plugins, plugin_id.0);
                }
                Err(EngineError::PluginNotFound(plugin_id))
            },
            Some(k) => {
                let ghost before = self.plugins@;
                proof {
                    lemma_chain_without_at(self@.plugins, self.next_plugin_id, k as int);
                }
                let _ = self.plugins.remove(k);
                assert(plugin_views(self.plugins@) =~= plugin_views(before).remove(k as int));
                proof {
                    let rest = self@.plugins;
                    if is_loaded(rest, plugin_id.0) {
                        let i = choose|i: int| 0 <= i < rest.len() && rest[i].id == plugin_id.0;
                        let a = if i < k { i } else { i + 1 };
                        assert(plugin_views(before)[a].id == plugin_id.0);
                        if a < k {
                            assert(plugin_views(before)[a].id < plugin_views(before)[k as int].id);
                        } else {
                            assert(plugin_views(before)[k as int].id < plugin_views(before)[a].id);
                        }
                    }
                }
                Ok(())
            },
        }
    }

    /// Removes a plugin from the processing chain; the same as unloading it.
    pub fn remove_plugin(&mut self, plugin_id: PluginId) -> (r: Result<(), EngineError>)
        requires
            old(self).wf(),
        ensures
            final(self).wf(),
            final(self)@ == after_unload(old(self)@, plugin_id.0),
            !is_loaded(final(self)@.plugins, plugin_id.0),
            is_loaded(old(self)@.plugins, plugin_id.0) ==> r == Ok::<(), EngineError>(()),
            !is_loaded(old(self)@.plugins, plugin_id.0) ==> r == Err::<(), EngineError>(
                EngineError::PluginNotFound(plugin_id),
            ) && final(self)@ == old(self)@,
    {
        self.unload_plugin(plugin_id)
    }

    /// The identities of the loaded plugins, in chain order.
    pub fn get_loaded_plugin_ids(&self) -> (r: Vec<PluginId>)
        ensures
            r@.len() == self@.plugins.len(),
            forall|i: int| 0 <= i < r@.len() ==> r@[i].0 == self@.plugins[i].id,
    {
        let mut out: Vec<PluginId> = Vec::new();
        let mut i: usize = 0;
        while i < self.plugins.len()
            invariant
                0 <= i <= self.plugins.len(),
                out@.len() == i,
                forall|j: int| 0 <= j < i ==> out@[j].0 == self@.plugins[j].id,
            decreases self.plugins.len() - i,
        {
            out.push(self.plugins[i].id);
            i = i + 1;
        }
        out
    }

    /// The loaded plugins with their display names, in chain order.
    pub fn plugin_modules(&self) -> (r: Vec<PluginInfo>)
        ensures
            r@.len() == self@.plugins.len(),
            forall|i: int|
                0 <= i < r@.len() ==> (#[trigger] r@[i]).id.0 == self@.plugins[i].id && r@[i].name@
                    == self@.plugins[i].name,
    {
        let mut out: Vec<PluginInfo> = Vec::new();
        let mut i: usize = 0;
        while i < self.plugins.len()
            invariant
                0 <= i <= self.plugins.len(),
                out@.len() == i,
                forall|j: int|
                    0 <= j < i ==> (#[trigger] out@[j]).id.0 == self@.plugins[j].id && out@[j].name@
                        == self@.plugins[j].name,
            decreases self.plugins.len() - i,
        {
            let id = self.plugins[i].id;
            let name = self.plugins[i].name.clone();
            out.push(PluginInfo { id, name });
            i = i + 1;
        }
        out
    }

    /// Records the outcome of opening a plugin's editor: the surrounding
    /// program created the view and tried to attach it to a window.  Audio
    /// processing is not touched.
    pub fn open_editor(&mut self, plugin_id: PluginId, attached: bool) -> (r: Result<
        (),
        EngineError,
    >)
        requires
            old(self).wf(),
        ensures
            final(self).wf(),
            final(self)@ == after_open_editor(old(self)@, plugin_id.0, attached),
            r == editor_result(old(self)@, plugin_id, attached),
    {
        match self.position_of(plugin_id) {
            None => {
                proof {
                    lemma_first_loaded_none(self@.plugins, plugin_id.0);
                }
                Err(EngineError::PluginNotFound(plugin_id))
            },
            Some(k) => {
                proof {
                    lemma_first_loaded_some(self@.plugins, self.next_plugin_id, k as int);
                }
                if attached {
                    self.set_editor(k, true);
                    Ok(())
                } else {
                    Err(EngineError::Plugin(PluginError::EditorFailed))
                }
            },
        }
    }

    /// Records that a plugin's editor window was closed and its view removed.
    pub fn close_editor(&mut self, plugin_id: PluginId) -> (r: Result<(), EngineError>)
        requires
            old(self).wf(),
        ensures
            final(self).wf(),
            final(self)@ == after_close_editor(old(self)@, plugin_id.0),
            r is Ok <==> is_loaded(old(self)@.plugins, plugin_id.0),
            r is Err ==> r->Err_0 == EngineError::PluginNotFound(plugin_id),
    {
        match self.position_of(plugin_id) {
            None => {
                proof {
                    lemma_first_loaded_none(self@.plugins, plugin_id.0);
                }
                Err(EngineError::PluginNotFound(plugin_id))
            },
            Some(k) => {
                proof {
                    lemma_first_loaded_some(self@.plugins, self.next_plugin_id, k as int);
                }
                self.set_editor(k, false);
                Ok(())
            },
        }
    }

    /// Sets the editor flag of the plugin at position `k`.
    fn set_editor(&mut self, k: usize, open: bool)
        requires
            old(self).wf(),
            k < old(self)@.plugins.len(),
        ensures
            final(self).wf(),
            final(self)@ == (EngineView {
                plugins: old(self)@.plugins.update(
                    k as int,
                    PluginView { editor_open: open, ..old(self)@.plugins[k as int] },
                ),
                ..old(self)@
            }),
    {
        let ghost before = self.plugins@;
        let mut p = self.plugins.remove(k);
        p.editor_open = open;
        self.plugins.insert(k, p);
        assert(plugin_views(self.plugins@) =~= plugin_views(before).update(
            k as int,
            PluginView { editor_open: open, ..plugin_views(before)[k as int] },
        ));
    }

    /// The names of the enumerated back-ends.
    pub fn available_host_names(&self) -> (r: Vec<String>)
        ensures
            texts(r@) == host_names(self@.hosts),
    {
        let mut out: Vec<String> = Vec::new();
        let mut i: usize = 0;
        assert(texts(out@) =~= host_names(self.hosts@).take(0));
        while i < self.hosts.len()
            invariant
                0 <= i <= self.hosts.len(),
                texts(out@) == host_names(self.hosts@).take(i as int),
            decreases self.hosts.len() - i,
        {
            let ghost before = out@;
            let name = self.hosts[i].name.clone();
            out.push(name);
            assert(texts(out@) =~= texts(before).push(name@));
            assert(host_names(self.hosts@).take(i + 1) =~= host_names(self.hosts@).take(
                i as int,
            ).push(self.hosts@[i as int].name@));
            i = i + 1;
        }
        assert(host_names(self.hosts@).take(i as int) =~= host_names(self.hosts@));
        out
    }

    /// The names of the current back-end's input devices.
    pub fn cached_current_input_device_names(&self) -> (r: Vec<String>)
        requires
            self.wf(),
        ensures
            texts(r@) == device_names(self@.hosts[self@.host].input_devices@),
    {
        names_of(&self.hosts[self.host].input_devices)
    }

    /// The names of the current back-end's output devices.
    pub fn cached_current_output_device_names(&self) -> (r: Vec<String>)
        requires
            self.wf(),
        ensures
            texts(r@) == device_names(self@.hosts[self@.host].output_devices@),
    {
        names_of(&self.hosts[self.host].output_devices)
    }

    /// The names of the input devices of the back-end of the given name.
    pub fn cached_input_device_names(&self, host_name: &str) -> (r: Option<Vec<String>>)
        ensures
            match first_index(host_names(self@.hosts), host_name@) {
                Some(i) => r is Some && texts(r->Some_0@) == device_names(
                    self@.hosts[i].input_devices@,
                ),
                None => r is None,
            },
    {
        match find_host(&self.hosts, host_name) {
            Some(i) => Some(names_of(&self.hosts[i].input_devices)),
            None => None,
        }
    }

    /// The names of the output devices of the back-end of the given name.
    pub fn cached_output_device_names(&self, host_name: &str) -> (r: Option<Vec<String>>)
        ensures
            match first_index(host_names(self@.hosts), host_name@) {
                Some(i) => r is Some && texts(r->Some_0@) == device_names(
                    self@.hosts[i].output_devices@,
                ),
                None => r is None,
            },
    {
        match find_host(&self.hosts, host_name) {
            Some(i) => Some(names_of(&self.hosts[i].output_devices)),
            None => None,
        }
    }

    /// The configuration ranges of the current back-end's input device of
    /// the given name.
    pub fn available_input_configs(&self, device_name: &str) -> (r: Option<
        Vec<SupportedStreamConfigRange>,
    >)
        requires
            self.wf(),
        ensures
            match first_index(device_names(self@.hosts[self@.host].input_devices@), device_name@) {
                Some(i) => r is Some && r->Some_0@
                    == self@.hosts[self@.host].input_devices@[i].configs@,
                None => r is None,
            },
    {
        match find_device(&self.hosts[self.host].input_devices, device_name) {
            Some(i) => Some(copy_ranges(&self.hosts[self.host].input_devices[i].configs)),
            None => None,
        }
    }

    /// The configuration ranges of the current back-end's output device of
    /// the given name.
    pub fn available_output_configs(&self, device_name: &str) -> (r: Option<
        Vec<SupportedStreamConfigRange>,
    >)
        requires
            self.wf(),
        ensures
            match first_index(
                device_names(self@.hosts[self@.host].output_devices@),
                device_name@,
            ) {
                Some(i) => r is Some && r->Some_0@
                    == self@.hosts[self@.host].output_devices@[i].configs@,
                None => r is None,
            },
    {
        match find_device(&self.hosts[self.host].output_devices, device_name) {
            Some(i) => Some(copy_ranges(&self.hosts[self.host].output_devices[i].configs)),
            None => None,
        }
    }

    /// The name of the current back-end.
    pub fn host_name(&self) -> (r: String)
        requires
            self.wf(),
        ensures
            r@ == self@.hosts[self@.host].name@,
    {
        self.hosts[self.host].name.clone()
    }

    /// The name of the selected input device.
    pub fn input_device_name(&self) -> (r: Option<String>)
        ensures
            opt_text(r) == self@.input_device,
    {
        clone_text(&self.input_device)
    }

    /// The name of the selected output device.
    pub fn output_device_name(&self) -> (r: Option<String>)
        ensures
            opt_text(r) == self@.output_device,
    {
        clone_text(&self.output_device)
    }

    /// The current input configuration.
    pub fn input_config(&self) -> (r: Option<StreamConfig>)
        ensures
            r == self@.input_config,
    {
        self.input_config
    }

    /// The current output configuration.
    pub fn output_config(&self) -> (r: Option<StreamConfig>)
        ensures
            r == self@.output_config,
    {
        self.output_config
    }

    /// The current sample rate.
    pub fn sample_rate(&self) -> (r: u32)
        ensures
            r == self@.sample_rate,
    {
        self.current_sample_rate
    }

    /// The current block size.
    pub fn buffer_size(&self) -> (r: u32)
        ensures
            r == self@.buffer_size,
    {
        self.current_buffer_size
    }

    /// Whether the stream pair is active.
    pub fn is_running(&self) -> (r: bool)
        ensures
            r == (self@.input_stream && self@.output_stream),
    {
        self.input_stream && self.output_stream
    }

    /// The per-block description handed to every plugin: real-time mode,
    /// 32-bit samples, one input and one output bus, and the current block
    /// size as the sample count.
    pub fn process_tick(&self) -> (r: ProcessTick)
        requires
            self.wf(),
        ensures
            r == tick_for(self@.buffer_size),
            0 <= r.num_samples <= MAX_BLOCK_SIZE,
            r.num_samples == self@.buffer_size,
    {
        ProcessTick {
            process_mode: ProcessMode::Realtime,
            symbolic_sample_size: SymbolicSampleSize::Sample32,
            num_samples: self.current_buffer_size as i32,
            num_inputs: 1,
            num_outputs: 1,
        }
    }

    /// The settings to store for the engine's current selection.
    pub fn current_settings(&self) -> (r: AudioSettings)
        requires
            self.wf(),
        ensures
            opt_text(r.host) == Some(self@.hosts[self@.host].name@),
            opt_text(r.input) == self@.input_device,
            opt_text(r.output) == self@.output_device,
            r.buffer_size == Some(self@.buffer_size as u64),
    {
        AudioSettings {
            host: Some(self.host_name()),
            input: self.input_device_name(),
            output: self.output_device_name(),
            buffer_size: Some(self.current_buffer_size as u64),
        }
    }

    /// Applies stored settings in the order back-end, input, output, block
    /// size.  A setting that is absent is skipped, and one that cannot be
    /// applied, such as a block size beyond what the buffers hold, is
    /// ignored.
    pub fn apply_settings(&mut self, settings: &AudioSettings)
        requires
            old(self).wf(),
        ensures
            final(self).wf(),
            final(self)@ == after_settings(old(self)@, *settings),
    {
        match &settings.host {
            Some(h) => {
                let _ = self.select_host(h.as_str());
            },
            None => {},
        }
        match &settings.input {
            Some(d) => {
                let _ = self.select_input(d.as_str());
            },
            None => {},
        }
        match &settings.output {
            Some(d) => {
                let _ = self.select_output(d.as_str());
            },
            None => {},
        }
        match settings.buffer_size {
            Some(n) => {
                if n <= 2048 {
                    let _ = self.set_buffer_size(n as u32);
                } else {
                    self.stop_streams();
                }
            },
            None => {},
        }
    }
}

/// A copy of a list of configuration ranges.
fn copy_ranges(v: &Vec<SupportedStreamConfigRange>) -> (r: Vec<SupportedStreamConfigRange>)
    ensures
        r@ == v@,
{
    let mut out: Vec<SupportedStreamConfigRange> = Vec::new();
    let mut i: usize = 0;
    while i < v.len()
        invariant
            0 <= i <= v.len(),
            out@ == v@.take(i as int),
        decreases v.len() - i,
    {
        out.push(v[i]);
        assert(out@ =~= v@.take(i + 1));
        i = i + 1;
    }
    assert(v@.take(i as int) =~= v@);
    out
}

/// A copy of the names of a list of devices.
fn names_of(devices: &Vec<DeviceInfo>) -> (r: Vec<String>)
    ensures
        texts(r@) == device_names(devices@),
{
    let mut out: Vec<String> = Vec::new();
    let mut i: usize = 0;
    assert(texts(out@) =~= device_names(devices@).take(0));
    while i < devices.len()
        invariant
            0 <= i <= devices.len(),
            texts(out@) == device_names(devices@).take(i as int),
        decreases devices.len() - i,
    {
        let ghost before = out@;
        let name = devices[i].name.clone();
        out.push(name);
        assert(texts(out@) =~= texts(before).push(name@));
        assert(device_names(devices@).take(i + 1) =~= device_names(devices@).take(i as int).push(
            devices@[i as int].name@,
        ));
        i = i + 1;
    }
    assert(device_names(devices@).take(i as int) =~= device_names(devices@));
    out
}

/// An engine over the enumerated back-ends with the stored settings applied.
pub fn create_audio_engine_from_settings(
    hosts: Vec<HostInfo>,
    default_host: usize,
    settings: &AudioSettings,
) -> (r: AudioEngine)
    requires
        default_host < hosts@.len(),
    ensures
        r.wf(),
        r@ == after_settings(initial_state(hosts@, default_host as int), *settings),
{
    let mut engine = AudioEngine::new(hosts, default_host);
    engine.apply_settings(settings);
    engine
}

/// How a plugin is asked to process.
#[derive(Clone, Copy, Debug, PartialEq, Eq, Structural)]
pub enum ProcessMode {
    Realtime,
    Prefetch,
    Offline,
}

/// The width of the samples a plugin is handed.
#[derive(Clone, Copy, Debug, PartialEq, Eq, Structural)]
pub enum SymbolicSampleSize {
    Sample32,
    Sample64,
}

/// The plain part of the per-block description shared with each plugin.
#[derive(Clone, Copy, Debug, PartialEq, Eq, Structural)]
pub struct ProcessTick {
    pub process_mode: ProcessMode,
    pub symbolic_sample_size: SymbolicSampleSize,
    pub num_samples: i32,
    pub num_inputs: i32,
    pub num_outputs: i32,
}

/// The audio part of the settings bag.
#[derive(Debug)]
pub struct AudioSettings {
    pub host: Option<String>,
    pub input: Option<String>,
    pub output: Option<String>,
    pub buffer_size: Option<u64>,
}

/// The process tick for a block size that the engine's buffers hold.
pub open spec fn tick_for(block_size: u32) -> ProcessTick {
    ProcessTick {
        process_mode: ProcessMode::Realtime,
        symbolic_sample_size: SymbolicSampleSize::Sample32,
        num_samples: block_size as i32,
        num_inputs: 1,
        num_outputs: 1,
    }
}

/// The state after stored settings were applied.
pub open spec fn after_settings(s: EngineView, settings: AudioSettings) -> EngineView {
    let s1 = match settings.host {
        Some(h) => after_select_host(s, h@),
        None => s,
    };
    let s2 = match settings.input {
        Some(d) => after_select_input(s1, d@),
        None => s1,
    };
    let s3 = match settings.output {
        Some(d) => after_select_output(s2, d@),
        None => s2,
    };
    match settings.buffer_size {
        Some(n) => if n <= MAX_BLOCK_SIZE {
            after_set_buffer_size(s3, n as u32)
        } else {
            paused(s3)
        },
        None => s3,
    }
}

/// The position of the plugin of the given identity in a chain.
pub open spec fn loaded_at(plugins: Seq<PluginView>, id: u64) -> Option<int> {
    if is_loaded(plugins, id) {
        Some(choose|i: int| 0 <= i < plugins.len() && plugins[i].id == id)
    } else {
        None
    }
}

/// The state after an attempt to open a plugin's editor.
pub open spec fn after_open_editor(s: EngineView, id: u64, attached: bool) -> EngineView {
    match loaded_at(s.plugins, id) {
        Some(k) => if attached {
            EngineView {
                plugins: s.plugins.update(k, PluginView { editor_open: true, ..s.plugins[k] }),
                ..s
            }
        } else {
            s
        },
        None => s,
    }
}

/// The result of an attempt to open a plugin's editor.
pub open spec fn editor_result(s: EngineView, id: PluginId, attached: bool) -> Result<
    (),
    EngineError,
> {
    if !is_loaded(s.plugins, id.0) {
        Err(EngineError::PluginNotFound(id))
    } else if !attached {
        Err(EngineError::Plugin(PluginError::EditorFailed))
    } else {
        Ok(())
    }
}

/// The state after a plugin's editor was closed.
pub open spec fn after_close_editor(s: EngineView, id: u64) -> EngineView {
    match loaded_at(s.plugins, id) {
        Some(k) => EngineView {
            plugins: s.plugins.update(k, PluginView { editor_open: false, ..s.plugins[k] }),
            ..s
        },
        None => s,
    }
}

/// A chain that does not hold an identity has no position for it.
pub proof fn lemma_first_loaded_none(plugins: Seq<PluginView>, id: u64)
    requires
        !is_loaded(plugins, id),
    ensures
        loaded_at(plugins, id) is None,
{
}

/// In a chain of distinct identities the position of an identity is the
/// one position that holds it.
pub proof fn lemma_first_loaded_some(plugins: Seq<PluginView>, next: u64, k: int)
    requires
        chain_ordered(plugins, next),
        0 <= k < plugins.len(),
    ensures
        loaded_at(plugins, plugins[k].id) == Some(k),
{
    let id = plugins[k].id;
    assert(is_loaded(plugins, id));
    let c = choose|i: int| 0 <= i < plugins.len() && plugins[i].id == id;
    if c < k {
        assert(plugins[c].id < plugins[k].id);
    } else if k < c {
        assert(plugins[k].id < plugins[c].id);
    }
}

/// A load or an unload, as it reaches the engine.
pub enum PluginOp {
    /// A plugin of the given display name loaded.
    Load(Seq<char>),
    /// The plugin of the given identity is to be unloaded.
    Unload(u64),
}

/// The state after one plugin operation.
pub open spec fn after_plugin_op(s: EngineView, op: PluginOp) -> EngineView {
    match op {
        PluginOp::Load(name) => if s.next_plugin_id < u64::MAX {
            after_load(s, name)
        } else {
            s
        },
        PluginOp::Unload(id) => after_unload(s, id),
    }
}

/// The state after a run of plugin operations.
pub open spec fn after_plugin_ops(s: EngineView, ops: Seq<PluginOp>) -> EngineView
    decreases ops.len(),
{
    if ops.len() == 0 {
        s
    } else {
        after_plugin_op(after_plugin_ops(s, ops.drop_last()), ops.last())
    }
}

/// The identities given out during a run of plugin operations, in order.
pub open spec fn issued_ids(s: EngineView, ops: Seq<PluginOp>) -> Seq<u64>
    decreases ops.len(),
{
    if ops.len() == 0 {
        Seq::empty()
    } else {
        let before = after_plugin_ops(s, ops.drop_last());
        let sofar = issued_ids(s, ops.drop_last());
        match ops.last() {
            PluginOp::Load(_) => if before.next_plugin_id < u64::MAX {
                sofar.push(before.next_plugin_id)
            } else {
                sofar
            },
            PluginOp::Unload(_) => sofar,
        }
    }
}

/// Plugin identities are never reused: over any run of loads and unloads
/// the identities given out are pairwise different, each is different from
/// every identity that was live at the start or given out before it, and
/// every plugin in the chain afterwards carries an identity below the next
/// one to be given out.
pub proof fn lemma_plugin_ids_never_reused(s: EngineView, ops: Seq<PluginOp>)
    requires
        valid_state(s),
    ensures
        valid_state(after_plugin_ops(s, ops)),
        s.next_plugin_id <= after_plugin_ops(s, ops).next_plugin_id,
        forall|i: int, j: int|
            0 <= i < j < issued_ids(s, ops).len() ==> issued_ids(s, ops)[i] < issued_ids(
                s,
                ops,
            )[j],
        forall|i: int|
            0 <= i < issued_ids(s, ops).len() ==> s.next_plugin_id <= #[trigger] issued_ids(
                s,
                ops,
            )[i] && issued_ids(s, ops)[i] < after_plugin_ops(s, ops).next_plugin_id,
        forall|i: int, k: int|
            0 <= i < issued_ids(s, ops).len() && 0 <= k < s.plugins.len() ==> #[trigger] issued_ids(
                s,
                ops,
            )[i] != (#[trigger] s.plugins[k]).id,
    decreases ops.len(),
{
    if ops.len() > 0 {
        let front = ops.drop_last();
        lemma_plugin_ids_never_reused(s, front);
        let before = after_plugin_ops(s, front);
        let sofar = issued_ids(s, front);
        let all = issued_ids(s, ops);
        match ops.last() {
            PluginOp::Load(name) => {
                if before.next_plugin_id < u64::MAX {
                    assert(all == sofar.push(before.next_plugin_id));
                    assert forall|i: int, j: int| 0 <= i < j < all.len() implies all[i]
                        < all[j] by {
                        assert(all[i] == sofar[i]);
                    }
                    assert forall|i: int, k: int|
                        0 <= i < all.len() && 0 <= k < s.plugins.len() implies #[trigger] all[i]
                        != (#[trigger] s.plugins[k]).id by {
                        if i < sofar.len() {
                            assert(all[i] == sofar[i]);
                        }
                    }
                } else {
                    assert(all == sofar);
                }
            },
            PluginOp::Unload(id) => {
                assert(all == sofar);
                if is_loaded(before.plugins, id) {
                    let k = choose|k: int| 0 <= k < before.plugins.len() && before.plugins[k].id
                        == id;
                    lemma_chain_without_at(before.plugins, before.next_plugin_id, k);
                } else {
                    lemma_chain_without_absent(before.plugins, id);
                }
            },
        }
    }
}

/// A load, while identities are left, gives out an identity that no plugin
/// in the chain carries, puts the new plugin last, and leaves every earlier
/// plugin where and as it was: afterwards exactly the earlier identities and
/// the new one are loaded.
pub proof fn lemma_load_extends_chain(s: EngineView, name: Seq<char>, id: u64)
    requires
        valid_state(s),
        s.next_plugin_id < u64::MAX,
    ensures
        valid_state(after_load(s, name)),
        !is_loaded(s.plugins, s.next_plugin_id),
        is_loaded(after_load(s, name).plugins, s.next_plugin_id),
        after_load(s, name).plugins.len() == s.plugins.len() + 1,
        after_load(s, name).plugins.take(s.plugins.len() as int) == s.plugins,
        after_load(s, name).plugins.last() == (PluginView {
            id: s.next_plugin_id,
            name,
            editor_open: false,
        }),
        is_loaded(after_load(s, name).plugins, id) <==> is_loaded(s.plugins, id) || id
            == s.next_plugin_id,
        loaded_ids(after_load(s, name).plugins) == loaded_ids(s.plugins).insert(
            s.next_plugin_id,
        ),
{
    let after = after_load(s, name).plugins;
    let n = s.plugins.len() as int;
    assert(after.take(n) =~= s.plugins);
    assert(after[n].id == s.next_plugin_id);
    if is_loaded(s.plugins, s.next_plugin_id) {
        let k = choose|k: int| 0 <= k < s.plugins.len() && s.plugins[k].id == s.next_plugin_id;
        assert(s.plugins[k].id < s.next_plugin_id);
    }
    assert forall|x: u64| is_loaded(after, x) <==> is_loaded(s.plugins, x) || x
        == s.next_plugin_id by {
        if is_loaded(after, x) {
            let k = choose|k: int| 0 <= k < after.len() && after[k].id == x;
            if k < n {
                assert(s.plugins[k].id == x);
            }
        }
        if is_loaded(s.plugins, x) {
            let k = choose|k: int| 0 <= k < s.plugins.len() && s.plugins[k].id == x;
            assert(after[k].id == x);
        }
    }
    assert(loaded_ids(after) =~= loaded_ids(s.plugins).insert(s.next_plugin_id));
}

/// An unload takes out the plugin of the given identity and no other:
/// afterwards exactly the other identities are loaded, in the order they had.
pub proof fn lemma_unload_removes_only(s: EngineView, id: u64, other: u64)
    requires
        valid_state(s),
    ensures
        valid_state(after_unload(s, id)),
        !is_loaded(after_unload(s, id).plugins, id),
        other != id ==> (is_loaded(after_unload(s, id).plugins, other) <==> is_loaded(
            s.plugins,
            other,
        )),
        loaded_ids(after_unload(s, id).plugins) == loaded_ids(s.plugins).remove(id),
{
    lemma_chain_without_keeps_others(s.plugins, id, other);
    assert forall|x: u64| loaded_ids(after_unload(s, id).plugins).contains(x) <==> loaded_ids(
        s.plugins,
    ).remove(id).contains(x) by {
        lemma_chain_without_keeps_others(s.plugins, id, x);
    }
    if is_loaded(s.plugins, id) {
        let k = choose|k: int| 0 <= k < s.plugins.len() && s.plugins[k].id == id;
        lemma_chain_without_at(s.plugins, s.next_plugin_id, k);
    } else {
        lemma_chain_without_absent(s.plugins, id);
    }
    assert(loaded_ids(after_unload(s, id).plugins) =~= loaded_ids(s.plugins).remove(id));
}

/// Removal from a chain leaves no plugin of the removed identity and every
/// plugin of another.
pub proof fn lemma_chain_without_keeps_others(plugins: Seq<PluginView>, id: u64, x: u64)
    ensures
        !is_loaded(chain_without(plugins, id), id),
        x != id ==> (is_loaded(chain_without(plugins, id), x) <==> is_loaded(plugins, x)),
    decreases plugins.len(),
{
    if plugins.len() > 0 {
        let front = plugins.drop_last();
        let last = plugins.last();
        lemma_chain_without_keeps_others(front, id, x);
        let rest = chain_without(front, id);
        let out = chain_without(plugins, id);
        if is_loaded(out, id) {
            let k = choose|k: int| 0 <= k < out.len() && out[k].id == id;
            if k < rest.len() {
                assert(rest[k].id == id);
            }
        }
        if x != id {
            if is_loaded(out, x) {
                let k = choose|k: int| 0 <= k < out.len() && out[k].id == x;
                if k < rest.len() {
                    assert(rest[k].id == x);
                    assert(is_loaded(rest, x));
                    assert(is_loaded(front, x));
                    let j = choose|j: int| 0 <= j < front.len() && front[j].id == x;
                    assert(plugins[j].id == x);
                } else {
                    assert(plugins[plugins.len() - 1].id == x);
                }
            }
            if is_loaded(plugins, x) {
                let j = choose|j: int| 0 <= j < plugins.len() && plugins[j].id == x;
                if j < front.len() {
                    assert(front[j].id == x);
                    assert(is_loaded(front, x));
                    assert(is_loaded(rest, x));
                    let k = choose|k: int| 0 <= k < rest.len() && rest[k].id == x;
                    assert(out[k].id == x);
                } else {
                    assert(last.id == x);
                    assert(out[out.len() - 1].id == x);
                }
            }
        }
    }
}

/// Every selection or setting leaves the engine without streams: neither a
/// capture nor a playback stream is active until the next run.
pub proof fn lemma_configuration_pauses(s: EngineView, name: Seq<char>, value: u32)
    ensures
        !after_select_host(s, name).input_stream && !after_select_host(s, name).output_stream,
        !after_select_input(s, name).input_stream && !after_select_input(s, name).output_stream,
        !after_select_output(s, name).input_stream && !after_select_output(
            s,
            name,
        ).output_stream,
        !after_set_sample_rate(s, value).input_stream && !after_set_sample_rate(
            s,
            value,
        ).output_stream,
        !after_set_buffer_size(s, value).input_stream && !after_set_buffer_size(
            s,
            value,
        ).output_stream,
{
}

/// After a run the streams exist as a pair or not at all.
pub proof fn lemma_streams_are_paired(s: EngineView, started: bool)
    ensures
        after_run(s, started).input_stream == after_run(s, started).output_stream,
        after_run(s, started).input_stream <==> run_result(s, started) is Ok,
{
}

/// On an exclusive back-end a successful input selection leaves both sides
/// on the selected device with the same configuration; on any other
/// back-end it leaves the output side as it was.
pub proof fn lemma_exclusive_mirrors_input(s: EngineView, name: Seq<char>)
    requires
        chosen_config(s.hosts[s.host].input_devices@, name) is Some,
    ensures
        after_select_input(s, name).input_device == Some(name),
        s.hosts[s.host].exclusive ==> after_select_input(s, name).output_device == Some(name)
            && after_select_input(s, name).output_config == after_select_input(
            s,
            name,
        ).input_config,
        !s.hosts[s.host].exclusive ==> after_select_input(s, name).output_device
            == s.output_device && after_select_input(s, name).output_config == s.output_config,
{
}

/// On an exclusive back-end a successful output selection leaves both sides
/// on the selected device with the same configuration; on any other
/// back-end it leaves the input side as it was.
pub proof fn lemma_exclusive_mirrors_output(s: EngineView, name: Seq<char>)
    requires
        chosen_config(s.hosts[s.host].output_devices@, name) is Some,
    ensures
        after_select_output(s, name).output_device == Some(name),
        s.hosts[s.host].exclusive ==> after_select_output(s, name).input_device == Some(name)
            && after_select_output(s, name).input_config == after_select_output(
            s,
            name,
        ).output_config,
        !s.hosts[s.host].exclusive ==> after_select_output(s, name).input_device
            == s.input_device && after_select_output(s, name).input_config == s.input_config,
{
}

} // verus!
