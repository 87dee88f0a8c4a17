//! The audio capture service: one input stream, shared by the subscribers
//! that come and go.
//!
//! The service decides; the caller owns the device.  Before a subscription
//! the caller asks whether a stream must be opened, opens it if so, and
//! hands over what the device reported.  The service says what is to be
//! delivered and when the stream is to be closed.

use crate::text::texts;
use vstd::prelude::*;

verus! {

/// How long the worker waits for a request before it looks after the
/// stream, in milliseconds.
pub const POLL_INTERVAL_MS: u64 = 300;

/// The lowest rate that the encoder takes.
pub const LOWEST_RATE: u32 = 8000;

/// What a device reports of its default input configuration.
#[derive(Clone, Copy, Debug, PartialEq, Eq, Structural)]
pub struct NativeConfig {
    /// Samples per second.
    pub sample_rate: u32,
    /// The number of channels.
    pub channels: u16,
}

/// The format that a stream was negotiated to.
#[derive(Clone, Copy, Debug, PartialEq, Eq, Structural)]
pub struct AudioFormat {
    /// The rate at which the samples are encoded.
    pub sample_rate: u32,
    /// One channel or two.
    pub channels: u16,
    /// The samples of one channel in a window of ten milliseconds at the
    /// device's own rate.
    pub frame_size: u32,
}

/// A rate that the encoder takes.
pub open spec fn on_ladder(rate: u32) -> bool {
    rate == 8000 || rate == 12000 || rate == 16000 || rate == 24000 || rate == 48000
}

/// The rate at which samples of the given native rate are encoded: the
/// greatest rate of the ladder that does not exceed it, and the lowest of
/// the ladder below that.
pub open spec fn snapped_rate(native: u32) -> u32 {
    if native < 12000 {
        8000
    } else if native < 16000 {
        12000
    } else if native < 24000 {
        16000
    } else if native < 48000 {
        24000
    } else {
        48000
    }
}

/// The format for a device's native configuration.
pub open spec fn negotiated(native: NativeConfig) -> AudioFormat {
    AudioFormat {
        sample_rate: snapped_rate(native.sample_rate),
        channels: if native.channels > 1 {
            2
        } else {
            1
        },
        frame_size: native.sample_rate / 100,
    }
}

/// The snapped rate is on the ladder, and no rate of the ladder lies between
/// it and the native rate.  From the lowest rate of the ladder on, it does
/// not exceed the native rate.
pub proof fn law_snap_is_floor(native: u32, other: u32)
    ensures
        on_ladder(snapped_rate(native)),
        native >= LOWEST_RATE ==> snapped_rate(native) <= native,
        on_ladder(other) && other <= native ==> other <= snapped_rate(native),
        on_ladder(native) ==> snapped_rate(native) == native,
{
}

/// The rate at which samples of the given native rate are encoded.
pub fn snap_sample_rate(native: u32) -> (r: u32)
    ensures
        r == snapped_rate(native),
{
    if native < 12000 {
        8000
    } else if native < 16000 {
        12000
    } else if native < 24000 {
        16000
    } else if native < 48000 {
        24000
    } else {
        48000
    }
}

/// Negotiates the format for a device's native configuration.
pub fn negotiate(native: NativeConfig) -> (f: AudioFormat)
    ensures
        f == negotiated(native),
{
    AudioFormat {
        sample_rate: snap_sample_rate(native.sample_rate),
        channels: if native.channels > 1 {
            2
        } else {
            1
        },
        frame_size: native.sample_rate / 100,
    }
}

/// What a subscriber receives.
pub enum AudioData {
    /// The format of the stream; it comes first.
    Format(AudioFormat),
    /// One captured buffer.
    Data(Vec<u8>),
}

/// What the audio worker is asked to do.  `S` is the subscriber's end of the
/// channel that the data goes to.
pub enum CpalRequest<S> {
    /// List the input devices.
    SoundInputs,
    /// End the worker.
    Close,
    /// Subscribe under the given id.
    Start(u64, S),
    /// Take the subscription of the given id away.
    Stop(u64),
}

/// What the audio worker answers.
pub enum CpalResponse {
    /// The names of the input devices.
    SoundInputs(Vec<String>),
}

/// The request that subscribes `sink` under `id`, where a worker runs.
pub fn start<S>(worker_running: bool, id: u64, sink: S) -> (r: Option<CpalRequest<S>>)
    ensures
        r == if worker_running {
            Some(CpalRequest::Start(id, sink))
        } else {
            None
        },
{
    if worker_running {
        Some(CpalRequest::Start(id, sink))
    } else {
        None
    }
}

/// The request that takes the subscription of `id` away, where a worker
/// runs.
pub fn stop<S>(worker_running: bool, id: u64) -> (r: Option<CpalRequest<S>>)
    ensures
        r == if worker_running {
            Some(CpalRequest::<S>::Stop(id))
        } else {
            None
        },
{
    if worker_running {
        Some(CpalRequest::Stop(id))
    } else {
        None
    }
}

/// What the host told of one device.
pub struct DeviceProbe {
    /// Whether the device has a default input configuration.
    pub has_default_input: bool,
    /// The device's name, where it could be read.
    pub name: Option<String>,
}

/// The device counts as an input.
pub open spec fn is_input(p: DeviceProbe) -> bool {
    p.has_default_input && p.name is Some
}

/// The names of the inputs among the first `n` devices, in order.
pub open spec fn input_names(probes: Seq<DeviceProbe>, n: int) -> Seq<Seq<char>>
    decreases n,
{
    if n <= 0 || n > probes.len() {
        Seq::empty()
    } else if is_input(probes[n - 1]) {
        input_names(probes, n - 1).push(probes[n - 1].name->0@)
    } else {
        input_names(probes, n - 1)
    }
}

/// The names of the devices that have a default input configuration and a
/// readable name, in the order in which the host listed them.
pub fn get_sound_inputs_(probes: &Vec<DeviceProbe>) -> (out: Vec<String>)
    ensures
        texts(out@) == input_names(probes@, probes@.len() as int),
{
    let mut out: Vec<String> = Vec::new();
    let mut i: usize = 0;
    while i < probes.len()
        invariant
            i <= probes@.len(),
            texts(out@) == input_names(probes@, i as int),
        decreases probes@.len() - i,
    {
        let p = &probes[i];
        if p.has_default_input {
            if let Some(name) = &p.name {
                let ghost before = out@;
                out.push(name.clone());
                assert(texts(out@) =~= texts(before).push(name@));
            }
        }
        i += 1;
    }
    out
}

/// The index of the first device at or after `i` whose name is `preferred`;
/// the number of devices where none has that name.
pub open spec fn place_of_name(names: Seq<Option<String>>, preferred: Seq<char>, i: int) -> int
    decreases names.len() - i,
{
    if i < 0 || i >= names.len() {
        names.len() as int
    } else if names[i] is Some && names[i]->0@ == preferred {
        i
    } else {
        place_of_name(names, preferred, i + 1)
    }
}

/// The device to capture from: the first that has the preferred name, where
/// a name is preferred and some device has it.  `None` stands for the
/// host's default input device.
pub open spec fn chosen_device(names: Seq<Option<String>>, preferred: Seq<char>) -> Option<usize> {
    let k = place_of_name(names, preferred, 0);
    if preferred.len() > 0 && 0 <= k < names.len() {
        Some(k as usize)
    } else {
        None
    }
}

/// Picks the device to capture from among the devices of the host, given by
/// their names in the host's order; a name that could not be read is `None`.
pub fn pick_input_device(preferred: &str, names: &Vec<Option<String>>) -> (r: Option<usize>)
    ensures
        r == chosen_device(names@, preferred@),
{
    if preferred.is_empty() {
        return None;
    }
    let wanted = crate::text::chars_of(preferred);
    let mut i: usize = 0;
    while i < names.len()
        invariant
            i <= names@.len(),
            wanted@ == preferred@,
            preferred@.len() > 0,
            place_of_name(names@, preferred@, i as int) == place_of_name(names@, preferred@, 0),
        decreases names@.len() - i,
    {
        if let Some(name) = &names[i] {
            if crate::text::same_text(&crate::text::chars_of(name.as_str()), &wanted) {
                return Some(i);
            }
        }
        i += 1;
    }
    None
}

/// Where the list of input devices comes from.
pub enum SoundInputsSource {
    /// From the worker: its answer, or nothing where none came in time.
    Worker(Option<CpalResponse>),
    /// From the host, asked directly.
    Direct(Vec<DeviceProbe>),
}

/// Why the audio service refused.
#[derive(Clone, Copy, Debug, PartialEq, Eq, Structural)]
pub enum AudioError {
    /// The worker did not answer in time.
    Timeout,
}

/// The names of the input devices.  A worker's answer is taken as it is;
/// where the worker did not answer in time the call fails.
pub fn get_sound_inputs(source: SoundInputsSource) -> (r: Result<Vec<String>, AudioError>)
    ensures
        match source {
            SoundInputsSource::Worker(None) => r == Err::<Vec<String>, AudioError>(
                AudioError::Timeout,
            ),
            SoundInputsSource::Worker(Some(CpalResponse::SoundInputs(names))) => r == Ok::<
                Vec<String>,
                AudioError,
            >(names),
            SoundInputsSource::Direct(probes) => r is Ok && texts(r->Ok_0@) == input_names(
                probes@,
                probes@.len() as int,
            ),
        },
{
    match source {
        SoundInputsSource::Worker(None) => Err(AudioError::Timeout),
        SoundInputsSource::Worker(Some(CpalResponse::SoundInputs(names))) => Ok(names),
        SoundInputsSource::Direct(probes) => Ok(get_sound_inputs_(&probes)),
    }
}

/// A consumer of the stream.
pub struct AudioSubscriber<S> {
    /// The id that the consumer chose.
    pub id: u64,
    /// The consumer's end of the channel.
    pub sink: S,
}

/// The index of the first subscriber at or after `i` that has the given id;
/// the number of subscribers where none has it.
pub open spec fn place_of<S>(subs: Seq<AudioSubscriber<S>>, id: u64, i: int) -> int
    decreases subs.len() - i,
{
    if i < 0 || i >= subs.len() {
        subs.len() as int
    } else if subs[i].id == id {
        i
    } else {
        place_of(subs, id, i + 1)
    }
}

/// Some subscriber has the given id.
pub open spec fn has_id<S>(subs: Seq<AudioSubscriber<S>>, id: u64) -> bool {
    exists|i: int| 0 <= i < subs.len() && (#[trigger] subs[i]).id == id
}

/// The subscribers without the first one that has the given id.
pub open spec fn without_id<S>(subs: Seq<AudioSubscriber<S>>, id: u64) -> Seq<AudioSubscriber<S>> {
    let k = place_of(subs, id, 0);
    if 0 <= k < subs.len() {
        subs.remove(k)
    } else {
        subs
    }
}

/// No two subscribers have one id.
pub open spec fn distinct_ids<S>(subs: Seq<AudioSubscriber<S>>) -> bool {
    forall|i: int, j: int|
        0 <= i < j < subs.len() ==> (#[trigger] subs[i]).id != (#[trigger] subs[j]).id
}

/// What `place_of` finds: the subscriber with the id, with none before it
/// that has it, or the end of the list where no subscriber has the id.
pub proof fn law_place_of_is_first<S>(subs: Seq<AudioSubscriber<S>>, id: u64, i: int)
    requires
        0 <= i <= subs.len(),
    ensures
        i <= place_of(subs, id, i) <= subs.len(),
        place_of(subs, id, i) < subs.len() ==> subs[place_of(subs, id, i)].id == id,
        forall|j: int| i <= j < place_of(subs, id, i) ==> (#[trigger] subs[j]).id != id,
    decreases subs.len() - i,
{
    if i < subs.len() && subs[i].id != id {
        law_place_of_is_first(subs, id, i + 1);
    }
}

/// What became of a subscription.
#[derive(Clone, Copy, Debug, PartialEq, Eq, Structural)]
pub enum StartOutcome {
    /// The id was subscribed already; nothing changed.
    AlreadySubscribed,
    /// The subscriber joined the running stream; the format is to be
    /// delivered to it.
    Joined(AudioFormat),
    /// The stream was opened for this subscriber; the format is to be
    /// delivered to it.
    Opened(AudioFormat),
    /// No stream runs and none could be opened; nothing changed.
    OpenFailed,
}

/// What became of the end of a subscription.
#[derive(Clone, Copy, Debug, PartialEq, Eq, Structural)]
pub enum StopOutcome {
    /// The id was not subscribed; nothing changed.
    NotSubscribed,
    /// The subscriber is gone; others remain, and the stream runs on.
    Removed,
    /// The last subscriber is gone; the stream is to be closed.
    RemovedLast,
}

/// The state of the audio capture service.
pub struct CpalService<S> {
    subscribers: Vec<AudioSubscriber<S>>,
    format: Option<AudioFormat>,
}

impl<S> CpalService<S> {
    /// The subscribers, in the order in which they came.
    pub closed spec fn subscribers(&self) -> Seq<AudioSubscriber<S>> {
        self.subscribers@
    }

    /// The format of the stream, while one runs.
    pub closed spec fn format(&self) -> Option<AudioFormat> {
        self.format
    }

    /// The service is in order: no id is subscribed twice, and a stream runs
    /// exactly while there are subscribers.
    pub open spec fn wf(&self) -> bool {
        &&& distinct_ids(self.subscribers())
        &&& self.format() is Some <==> self.subscribers().len() > 0
    }

    /// Whether a subscription under `id` needs a stream to be opened first:
    /// the id is new and no stream runs.
    pub open spec fn wants_device(&self, id: u64) -> bool {
        !has_id(self.subscribers(), id) && self.format() is None
    }

    /// What a subscription under `id` comes to, where the caller hands over
    /// `device` as the configuration of the device that it opened, or
    /// nothing where it opened none.
    pub open spec fn start_outcome(&self, id: u64, device: Option<NativeConfig>) -> StartOutcome {
        if has_id(self.subscribers(), id) {
            StartOutcome::AlreadySubscribed
        } else if self.format() is Some {
            StartOutcome::Joined(self.format()->0)
        } else if device is Some {
            StartOutcome::Opened(negotiated(device->0))
        } else {
            StartOutcome::OpenFailed
        }
    }

    /// What the end of the subscription of `id` comes to.
    pub open spec fn stop_outcome(&self, id: u64) -> StopOutcome {
        if !has_id(self.subscribers(), id) {
            StopOutcome::NotSubscribed
        } else if self.subscribers().len() == 1 {
            StopOutcome::RemovedLast
        } else {
            StopOutcome::Removed
        }
    }

    /// A service without subscribers and without a stream.
    pub fn new() -> (r: Self)
        ensures
            r.wf(),
            r.subscribers().len() == 0,
            r.format() is None,
    {
        CpalService { subscribers: Vec::new(), format: None }
    }

    /// The format of the stream, while one runs.
    pub fn current_format(&self) -> (r: Option<AudioFormat>)
        ensures
            r == self.format(),
    {
        self.format
    }

    /// The subscribers to whom every captured buffer goes, in the order in
    /// which they came.
    pub fn recipients(&self) -> (r: &Vec<AudioSubscriber<S>>)
        ensures
            r@ == self.subscribers(),
    {
        &self.subscribers
    }

    /// Where the subscriber with the given id stands.
    fn find(&self, id: u64) -> (r: Option<usize>)
        ensures
            match r {
                Some(k) => {
                    &&& k < self.subscribers().len()
                    &&& k == place_of(self.subscribers(), id, 0)
                    &&& self.subscribers()[k as int].id == id
                },
                None => place_of(self.subscribers(), id, 0) == self.subscribers().len(),
            },
            r is Some <==> has_id(self.subscribers(), id),
    {
        let mut i: usize = 0;
        while i < self.subscribers.len()
            invariant
                i <= self.subscribers@.len(),
                place_of(self.subscribers@, id, i as int) == place_of(self.subscribers@, id, 0),
                forall|j: int| 0 <= j < i ==> (#[trigger] self.subscribers@[j]).id != id,
            decreases self.subscribers@.len() - i,
        {
            if self.subscribers[i].id == id {
                return Some(i);
            }
            i += 1;
        }
        None
    }

    /// Whether the given id is subscribed.
    pub fn is_subscribed(&self, id: u64) -> (r: bool)
        ensures
            r == has_id(self.subscribers(), id),
    {
        self.find(id).is_some()
    }

    /// Whether the caller has to open the device before it subscribes `id`.
    pub fn needs_device(&self, id: u64) -> (r: bool)
        ensures
            r == self.wants_device(id),
    {
        self.format.is_none() && self.find(id).is_none()
    }

    /// Subscribes `sink` under `id`.  A known id changes nothing.  A new one
    /// joins the running stream; where none runs, the stream starts with the
    /// format negotiated for `device`, or, without a device, the
    /// subscription fails and the service stays without a stream.
    pub fn start(&mut self, id: u64, sink: S, device: Option<NativeConfig>) -> (r: StartOutcome)
        requires
            old(self).wf(),
        ensures
            final(self).wf(),
            r == old(self).start_outcome(id, device),
            match r {
                StartOutcome::AlreadySubscribed | StartOutcome::OpenFailed => {
                    &&& final(self).subscribers() == old(self).subscribers()
                    &&& final(self).format() == old(self).format()
                },
                StartOutcome::Joined(f) | StartOutcome::Opened(f) => {
                    &&& final(self).subscribers() == old(self).subscribers().push(
                        AudioSubscriber { id, sink },
                    )
                    &&& final(self).format() == Some(f)
                },
            },
    {
        if self.find(id).is_some() {
            return StartOutcome::AlreadySubscribed;
        }
        let ghost before = self.subscribers@;
        match self.format {
            Some(f) => {
                self.subscribers.push(AudioSubscriber { id, sink });
                proof {
                    assert forall|i: int, j: int| 0 <= i < j < self.subscribers@.len() implies (
                    #[trigger] self.subscribers@[i]).id != (#[trigger] self.subscribers@[j]).id by {
                        if j < before.len() {
                            assert(before[i].id != before[j].id);
                        } else {
                            assert(before[i].id != id);
                        }
                    }
                }
                StartOutcome::Joined(f)
            },
            None => match device {
                Some(native) => {
                    let f = negotiate(native);
                    self.subscribers.push(AudioSubscriber { id, sink });
                    self.format = Some(f);
                    StartOutcome::Opened(f)
                },
                None => StartOutcome::OpenFailed,
            },
        }
    }

    /// Takes the subscription of `id` away.  The other subscribers keep
    /// their order.  With the last subscriber the stream goes too.
    pub fn stop(&mut self, id: u64) -> (r: StopOutcome)
        requires
            old(self).wf(),
        ensures
            final(self).wf(),
            r == old(self).stop_outcome(id),
            final(self).subscribers() == without_id(old(self).subscribers(), id),
            final(self).format() == if final(self).subscribers().len() == 0 {
                None
            } else {
                old(self).format()
            },
            !has_id(final(self).subscribers(), id),
            forall|other: u64|
                other != id ==> has_id(final(self).subscribers(), other) == has_id(
                    old(self).subscribers(),
                    other,
                ),
    {
        let ghost before = self.subscribers@;
        match self.find(id) {
            None => StopOutcome::NotSubscribed,
            Some(k) => {
                let _gone = self.subscribers.remove(k);
                proof {
                    let after = self.subscribers@;
                    assert(after == before.remove(k as int));
                    assert(before[k as int].id == id);
                    assert forall|i: int| 0 <= i < after.len() implies #[trigger] after[i]
                        == before[if i < k { i } else { i + 1 }] by {}
                    assert forall|i: int, j: int| 0 <= i < j < after.len() implies (
                    #[trigger] after[i]).id != (#[trigger] after[j]).id by {
                        let a = if i < k { i } else { i + 1 };
                        let b = if j < k { j } else { j + 1 };
                        assert(before[a].id != before[b].id);
                    }
                    assert forall|i: int| 0 <= i < after.len() implies (#[trigger] after[i]).id
                        != id by {
                        let a = if i < k { i } else { i + 1 };
                        if a < k {
                            assert(before[a].id != before[k as int].id);
                        } else {
                            assert(before[k as int].id != before[a].id);
                        }
                    }
                    assert forall|other: u64| other != id implies has_id(after, other) == has_id(
                        before,
                        other,
                    ) by {
                        if has_id(after, other) {
                            let i = choose|i: int| 0 <= i < after.len() && (#[trigger] after[i]).id == other;
                            let a = if i < k { i } else { i + 1 };
                            assert(before[a].id == other);
                        }
                        if has_id(before, other) {
                            let a = choose|a: int| 0 <= a < before.len() && (#[trigger] before[a]).id == other;
                            let i = if a < k { a } else { a - 1 };
                            assert(after[i].id == other);
                        }
                    }
                }
                if self.subscribers.len() == 0 {
                    self.format = None;
                    StopOutcome::RemovedLast
                } else {
                    StopOutcome::Removed
                }
            },
        }
    }
}

/// What reaches the audio worker.
pub enum WorkerEvent<S> {
    /// A request came.
    Request(CpalRequest<S>),
    /// No request came within the poll interval.
    Timeout,
    /// Nobody can send requests any more.
    Disconnected,
}

/// What the audio worker is to do next.
#[derive(Clone, Copy, Debug, PartialEq, Eq, Structural)]
pub enum WorkerAction {
    /// Wait for the next request.
    Continue,
    /// Answer with the list of input devices, and go on.
    ReplySoundInputs,
    /// Deliver the format to the subscriber with the given id, and go on.
    DeliverFormat(u64, AudioFormat),
    /// Close the stream, and go on.
    CloseStream,
    /// Leave the loop.
    Exit,
}

/// One turn of the audio worker: what it does with the service on an event,
/// and what it is to do next.  `device` is the configuration of the device
/// that the caller opened for a subscription that needed one.
pub fn worker_step<S>(service: &mut CpalService<S>, event: WorkerEvent<S>, device: Option<
    NativeConfig,
>) -> (action: WorkerAction)
    requires
        old(service).wf(),
    ensures
        final(service).wf(),
        match event {
            WorkerEvent::Request(CpalRequest::Start(id, sink)) => {
                let outcome = old(service).start_outcome(id, device);
                match outcome {
                    StartOutcome::Joined(f) | StartOutcome::Opened(f) => {
                        &&& action == WorkerAction::DeliverFormat(id, f)
                        &&& final(service).subscribers() == old(service).subscribers().push(
                            AudioSubscriber { id, sink },
                        )
                        &&& final(service).format() == Some(f)
                    },
                    _ => {
                        &&& action == WorkerAction::Continue
                        &&& final(service).subscribers() == old(service).subscribers()
                        &&& final(service).format() == old(service).format()
                    },
                }
            },
            WorkerEvent::Request(CpalRequest::Stop(id)) => {
                &&& final(service).subscribers() == without_id(old(service).subscribers(), id)
                &&& !has_id(final(service).subscribers(), id)
                &&& final(service).format() == if final(service).subscribers().len() == 0 {
                    None
                } else {
                    old(service).format()
                }
                &&& action == if old(service).stop_outcome(id) == StopOutcome::RemovedLast {
                    WorkerAction::CloseStream
                } else {
                    WorkerAction::Continue
                }
            },
            WorkerEvent::Request(CpalRequest::SoundInputs) => {
                &&& action == WorkerAction::ReplySoundInputs
                &&& final(service).subscribers() == old(service).subscribers()
                &&& final(service).format() == old(service).format()
            },
            WorkerEvent::Request(CpalRequest::Close) | WorkerEvent::Disconnected => {
                &&& action == WorkerAction::Exit
                &&& final(service).subscribers() == old(service).subscribers()
                &&& final(service).format() == old(service).format()
            },
            WorkerEvent::Timeout => {
                &&& action == WorkerAction::Continue
                &&& final(service).subscribers() == old(service).subscribers()
                &&& final(service).format() == old(service).format()
            },
        },
{
    match event {
        WorkerEvent::Request(CpalRequest::SoundInputs) => WorkerAction::ReplySoundInputs,
        WorkerEvent::Request(CpalRequest::Close) => WorkerAction::Exit,
        WorkerEvent::Request(CpalRequest::Start(id, sink)) => {
            match service.start(id, sink, device) {
                StartOutcome::Joined(f) => WorkerAction::DeliverFormat(id, f),
                StartOutcome::Opened(f) => WorkerAction::DeliverFormat(id, f),
                StartOutcome::AlreadySubscribed => WorkerAction::Continue,
                StartOutcome::OpenFailed => WorkerAction::Continue,
            }
        },
        WorkerEvent::Request(CpalRequest::Stop(id)) => {
            match service.stop(id) {
                StopOutcome::RemovedLast => WorkerAction::CloseStream,
                _ => WorkerAction::Continue,
            }
        },
        WorkerEvent::Timeout => WorkerAction::Continue,
        WorkerEvent::Disconnected => WorkerAction::Exit,
    }
}

/// Subscribing is idempotent: for an id that is subscribed a further
/// subscription changes nothing and asks for no device, whatever device it
/// is given.
pub proof fn law_resubscribe_is_noop<S>(service: CpalService<S>, id: u64, device: Option<NativeConfig>)
    requires
        service.wf(),
        has_id(service.subscribers(), id),
    ensures
        service.start_outcome(id, device) == StartOutcome::AlreadySubscribed,
        !service.wants_device(id),
{
}

/// One stream serves all: while a stream runs, a new subscriber joins it
/// and gets its format, no device is asked for, and the device that the
/// caller hands over has no say.
pub proof fn law_late_subscriber_joins<S>(
    service: CpalService<S>,
    id: u64,
    device: Option<NativeConfig>,
)
    requires
        service.wf(),
        service.subscribers().len() > 0,
        !has_id(service.subscribers(), id),
    ensures
        service.format() is Some,
        !service.wants_device(id),
        service.start_outcome(id, device) == StartOutcome::Joined(service.format()->0),
{
}

} // verus!
