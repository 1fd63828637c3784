//! Whether some application uses a camera.
use vstd::prelude::*;

verus! {

/// Inactive samples in a row that end an active state. A client that renegotiates
/// or switches its capture mode briefly looks inactive.
pub const INACTIVE_CONFIRMATIONS: u8 = 2;

/// Turns samples of camera use into changes of it.
#[derive(Debug)]
pub struct CameraDebouncer {
    pub emitted: Option<bool>,
    pub inactive_samples: u8,
}

impl Default for CameraDebouncer {
    fn default() -> (debouncer: CameraDebouncer)
        ensures
            debouncer == (CameraDebouncer { emitted: None, inactive_samples: 0 }),
    {
        CameraDebouncer { emitted: None, inactive_samples: 0 }
    }
}

impl CameraDebouncer {
    /// Whether an inactive sample only counts toward the end of an active state.
    pub open spec fn waits(self, active: bool) -> bool {
        !active && self.emitted == Some(true) && self.inactive_samples + 1 < INACTIVE_CONFIRMATIONS
    }

    /// The debouncer once a sample is in.
    pub open spec fn after(self, active: bool) -> CameraDebouncer {
        if self.waits(active) {
            CameraDebouncer {
                emitted: self.emitted,
                inactive_samples: (self.inactive_samples + 1) as u8,
            }
        } else {
            CameraDebouncer {
                emitted: Some(active),
                inactive_samples: if active || self.emitted == Some(true) {
                    0
                } else {
                    self.inactive_samples
                },
            }
        }
    }

    /// The debouncer once all samples are in.
    pub open spec fn after_all(self, samples: Seq<bool>) -> CameraDebouncer
        decreases samples.len(),
    {
        if samples.len() == 0 {
            self
        } else {
            self.after_all(samples.drop_last()).after(samples.last())
        }
    }

    /// Take one sample. A change of the debounced state comes back.
    pub fn observe(&mut self, active: bool) -> (change: Option<bool>)
        ensures
            *final(self) == old(self).after(active),
            change == (if final(self).emitted == old(self).emitted {
                None
            } else {
                Some(active)
            }),
    {
        if active {
            self.inactive_samples = 0;
            if self.emitted != Some(true) {
                self.emitted = Some(true);
                return Some(true);
            }
            return None;
        }
        if self.emitted != Some(true) {
            if self.emitted != Some(false) {
                self.emitted = Some(false);
                return Some(false);
            }
            return None;
        }
        self.inactive_samples = self.inactive_samples.saturating_add(1);
        if self.inactive_samples < INACTIVE_CONFIRMATIONS {
            return None;
        }
        self.inactive_samples = 0;
        self.emitted = Some(false);
        Some(false)
    }

    /// A probe that failed breaks a run of inactive samples.
    pub fn retain_last_state_after_probe_error(&mut self)
        ensures
            final(self).emitted == old(self).emitted,
            final(self).inactive_samples == 0,
    {
        self.inactive_samples = 0;
    }
}

/// An active state outlasts every series of samples in which no two inactive ones
/// follow each other.
pub proof fn brief_inactivity_is_not_reported(debouncer: CameraDebouncer, samples: Seq<bool>)
    requires
        debouncer.emitted == Some(true),
        debouncer.inactive_samples == 0,
        forall|i: int| 0 <= i < samples.len() - 1 ==> #[trigger] samples[i] || samples[i + 1],
    ensures
        debouncer.after_all(samples).emitted == Some(true),
        debouncer.after_all(samples).inactive_samples == (if samples.len() == 0 || samples.last() {
            0u8
        } else {
            1u8
        }),
    decreases samples.len(),
{
    if samples.len() > 0 {
        let before = samples.drop_last();
        assert forall|i: int| 0 <= i < before.len() - 1 implies #[trigger] before[i] || before[i
            + 1] by {
            assert(samples[i] || samples[i + 1]);
        }
        brief_inactivity_is_not_reported(debouncer, before);
        if samples.len() > 1 {
            assert(samples[samples.len() - 2] || samples[samples.len() - 2 + 1]);
        }
    }
}

/// Two inactive samples in a row end an active state, whatever came before them.
pub proof fn lasting_inactivity_is_reported(debouncer: CameraDebouncer)
    requires
        debouncer.emitted == Some(true),
    ensures
        debouncer.after(false).after(false).emitted == Some(false),
{
}

// ── Windows: the camera consent store ───────────────────────────────────────

/// What a look at some entries of the consent store found.
#[derive(Clone, Copy, Debug, PartialEq, Eq, Structural)]
pub enum Scan {
    /// A client holds the camera.
    Holding,
    /// Every entry was read and none holds the camera.
    NoneHolding,
    /// An entry could not be read, and none that could holds the camera.
    Unreadable(i32),
}

impl Scan {
    /// Use outranks a failure, which outranks silence; of two failures the
    /// earlier one counts.
    pub open spec fn merged(self, other: Scan) -> Scan {
        if self == Scan::Holding || other == Scan::Holding {
            Scan::Holding
        } else if self is Unreadable {
            self
        } else {
            other
        }
    }

    /// Put two findings together.
    pub fn merge(self, other: Scan) -> (scan: Scan)
        ensures
            scan == self.merged(other),
    {
        match (self, other) {
            (Scan::Holding, _) | (_, Scan::Holding) => Scan::Holding,
            (Scan::Unreadable(status), _) | (_, Scan::Unreadable(status)) => Scan::Unreadable(
                status,
            ),
            (Scan::NoneHolding, Scan::NoneHolding) => Scan::NoneHolding,
        }
    }

    pub open spec fn as_answer(self) -> Result<bool, i32> {
        match self {
            Scan::Holding => Ok(true),
            Scan::NoneHolding => Ok(false),
            Scan::Unreadable(status) => Err(status),
        }
    }

    /// Whether a camera is in use, or the status of what could not be read.
    pub fn answer(self) -> (answer: Result<bool, i32>)
        ensures
            answer == self.as_answer(),
    {
        match self {
            Scan::Holding => Ok(true),
            Scan::NoneHolding => Ok(false),
            Scan::Unreadable(status) => Err(status),
        }
    }

    pub fn is_holding(self) -> (holding: bool)
        ensures
            holding == (self == Scan::Holding),
    {
        matches!(self, Scan::Holding)
    }

    pub fn unreadable_status(self) -> (status: Option<i32>)
        ensures
            status == (match self {
                Scan::Unreadable(status) => Some(status),
                _ => None,
            }),
    {
        match self {
            Scan::Unreadable(status) => Some(status),
            _ => None,
        }
    }
}

/// The result of reading one entry or opening one key.
#[derive(Debug)]
pub enum Reading<T> {
    Found(T),
    Missing,
    Failed(i32),
}

/// The stamps of one client of the store.
#[derive(Debug)]
pub struct ClientStamps {
    pub started: Reading<u64>,
    pub stopped: Reading<u64>,
}

/// The clients of one hive: those at the top, and the unpackaged ones below.
#[derive(Debug)]
pub struct ConsentStore {
    pub clients: Vec<Reading<ClientStamps>>,
    pub non_packaged: Reading<Vec<Reading<ClientStamps>>>,
}

/// The status of an operating-system error, `-1` for one that has none.
pub fn status_of(raw_os_error: Option<i32>) -> (status: i32)
    ensures
        status == (match raw_os_error {
            Some(status) => status,
            None => -1i32,
        }),
{
    match raw_os_error {
        Some(status) => status,
        None => -1,
    }
}

/// A camera is held from a start stamp until the stop stamp is written.
pub open spec fn is_held(started: u64, stopped: u64) -> bool {
    started != 0 && stopped == 0
}

/// Whether the two stamps are those of a client that holds the camera.
pub fn holds_camera(started: u64, stopped: u64) -> (holds: bool)
    ensures
        holds == is_held(started, stopped),
{
    started != 0 && stopped == 0
}

/// The stamp that a reading stands for: a missing one is zero.
pub open spec fn stamp_of(reading: Reading<u64>) -> Result<u64, i32> {
    match reading {
        Reading::Found(stamp) => Ok(stamp),
        Reading::Missing => Ok(0),
        Reading::Failed(status) => Err(status),
    }
}

/// The stamp that a reading stands for.
pub fn usage_stamp(reading: &Reading<u64>) -> (stamp: Result<u64, i32>)
    ensures
        stamp == stamp_of(*reading),
{
    match reading {
        Reading::Found(stamp) => Ok(*stamp),
        Reading::Missing => Ok(0),
        Reading::Failed(status) => Err(*status),
    }
}

/// What one client's stamps say.
pub open spec fn client_scan(client: ClientStamps) -> Scan {
    match (stamp_of(client.started), stamp_of(client.stopped)) {
        (Err(status), _) => Scan::Unreadable(status),
        (_, Err(status)) => Scan::Unreadable(status),
        (Ok(started), Ok(stopped)) => if is_held(started, stopped) {
            Scan::Holding
        } else {
            Scan::NoneHolding
        },
    }
}

/// What one client's stamps say.
pub fn scan_client(client: &ClientStamps) -> (scan: Scan)
    ensures
        scan == client_scan(*client),
{
    let started: u64 = match usage_stamp(&client.started) {
        Ok(stamp) => stamp,
        Err(status) => {
            return Scan::Unreadable(status);
        },
    };
    let stopped: u64 = match usage_stamp(&client.stopped) {
        Ok(stamp) => stamp,
        Err(status) => {
            return Scan::Unreadable(status);
        },
    };
    if holds_camera(started, stopped) {
        Scan::Holding
    } else {
        Scan::NoneHolding
    }
}

/// What one client's entry says. An entry that is gone says nothing.
pub open spec fn entry_scan(entry: Reading<ClientStamps>) -> Scan {
    match entry {
        Reading::Found(client) => client_scan(client),
        Reading::Missing => Scan::NoneHolding,
        Reading::Failed(status) => Scan::Unreadable(status),
    }
}

/// What all the clients' entries say together.
pub open spec fn clients_scan(entries: Seq<Reading<ClientStamps>>) -> Scan
    decreases entries.len(),
{
    if entries.len() == 0 {
        Scan::NoneHolding
    } else {
        clients_scan(entries.drop_last()).merged(entry_scan(entries.last()))
    }
}

proof fn lemma_clients_scan_holding(entries: Seq<Reading<ClientStamps>>, n: int)
    requires
        0 <= n <= entries.len(),
        clients_scan(entries.take(n)) == Scan::Holding,
    ensures
        clients_scan(entries) == Scan::Holding,
    decreases entries.len() - n,
{
    if n < entries.len() {
        assert(entries.take(n + 1).drop_last() =~= entries.take(n));
        lemma_clients_scan_holding(entries, n + 1);
    } else {
        assert(entries.take(n) =~= entries);
    }
}

/// What all the clients' entries say together.
pub fn scan_clients(entries: &Vec<Reading<ClientStamps>>) -> (scan: Scan)
    ensures
        scan == clients_scan(entries@),
{
    let mut scan: Scan = Scan::NoneHolding;
    let mut i: usize = 0;
    while i < entries.len()
        invariant
            i <= entries.len(),
            scan == clients_scan(entries@.take(i as int)),
        decreases entries.len() - i,
    {
        let entry: Scan = match &entries[i] {
            Reading::Found(client) => scan_client(client),
            Reading::Missing => Scan::NoneHolding,
            Reading::Failed(status) => Scan::Unreadable(*status),
        };
        proof {
            assert(entries@.take(i + 1).drop_last() =~= entries@.take(i as int));
        }
        if matches!(entry, Scan::Holding) {
            proof {
                lemma_clients_scan_holding(entries@, i + 1);
            }
            return Scan::Holding;
        }
        scan = scan.merge(entry);
        i = i + 1;
    }
    assert(entries@.take(i as int) =~= entries@);
    scan
}

/// What one hive's store says.
pub open spec fn store_scan(store: ConsentStore) -> Scan {
    clients_scan(store.clients@).merged(
        match store.non_packaged {
            Reading::Found(entries) => clients_scan(entries@),
            Reading::Missing => Scan::NoneHolding,
            Reading::Failed(status) => Scan::Unreadable(status),
        },
    )
}

/// What one hive's store says.
pub fn scan_store(store: &ConsentStore) -> (scan: Scan)
    ensures
        scan == store_scan(*store),
{
    let direct: Scan = scan_clients(&store.clients);
    if matches!(direct, Scan::Holding) {
        return Scan::Holding;
    }
    let nested: Scan = match &store.non_packaged {
        Reading::Found(entries) => scan_clients(entries),
        Reading::Missing => Scan::NoneHolding,
        Reading::Failed(status) => Scan::Unreadable(*status),
    };
    direct.merge(nested)
}

/// What one hive says. A hive without a store says nothing.
pub open spec fn hive_scan(hive: Reading<ConsentStore>) -> Scan {
    match hive {
        Reading::Found(store) => store_scan(store),
        Reading::Missing => Scan::NoneHolding,
        Reading::Failed(status) => Scan::Unreadable(status),
    }
}

fn scan_hive(hive: &Reading<ConsentStore>) -> (scan: Scan)
    ensures
        scan == hive_scan(*hive),
{
    match hive {
        Reading::Found(store) => scan_store(store),
        Reading::Missing => Scan::NoneHolding,
        Reading::Failed(status) => Scan::Unreadable(*status),
    }
}

/// Whether the user's or the machine's hive shows a camera in use.
pub fn camera_in_use(
    user: &Reading<ConsentStore>,
    machine: &Reading<ConsentStore>,
) -> (answer: Result<bool, i32>)
    ensures
        answer == hive_scan(*user).merged(hive_scan(*machine)).as_answer(),
{
    let first: Scan = scan_hive(user);
    if matches!(first, Scan::Holding) {
        return Ok(true);
    }
    let second: Scan = scan_hive(machine);
    first.merge(second).answer()
}

/// Putting findings together depends on their order only in which failure counts.
pub proof fn merging_is_associative(a: Scan, b: Scan, c: Scan)
    ensures
        a.merged(b).merged(c) == a.merged(b.merged(c)),
        a.merged(b) == Scan::Holding <==> b.merged(a) == Scan::Holding,
        Scan::NoneHolding.merged(a) == a,
        a.merged(Scan::NoneHolding) == a,
{
}

/// A client in use is found wherever it stands in the store, whatever else could
/// not be read.
pub proof fn a_held_camera_is_always_found(entries: Seq<Reading<ClientStamps>>, at: int)
    requires
        0 <= at < entries.len(),
        entry_scan(entries[at]) == Scan::Holding,
    ensures
        clients_scan(entries) == Scan::Holding,
{
    assert(entries.take(at + 1).last() == entries[at]);
    lemma_clients_scan_holding(entries, at + 1);
}

// ── macOS: CoreMediaIO devices ──────────────────────────────────────────────

/// The answer of CoreMediaIO for one device.
#[derive(Clone, Copy, Debug, PartialEq, Eq, Structural)]
pub struct DeviceReading {
    pub status: i32,
    /// Bytes that the answer took, of the four of a number.
    pub used: u32,
    /// Not zero where some process runs the device.
    pub running: u32,
}

impl DeviceReading {
    /// Whether the answer is a whole number.
    pub open spec fn readable(self) -> bool {
        self.status == 0 && self.used == 4
    }
}

/// The answers of CoreMediaIO, as far as they were asked for.
#[derive(Debug)]
pub struct CameraProbe {
    /// Asking for the size of the device list.
    pub size_status: i32,
    /// Bytes of the device list.
    pub size: u32,
    /// Asking for the device list itself.
    pub list_status: i32,
    /// Bytes of the list that were filled.
    pub list_used: u32,
    /// One answer for each device of the list.
    pub devices: Vec<DeviceReading>,
}

/// Whether some readable device runs.
pub open spec fn any_running(devices: Seq<DeviceReading>) -> bool {
    exists|i: int|
        0 <= i < devices.len() && (#[trigger] devices[i]).readable() && devices[i].running != 0
}

/// Whether some device could be read.
pub open spec fn any_readable(devices: Seq<DeviceReading>) -> bool {
    exists|i: int| 0 <= i < devices.len() && (#[trigger] devices[i]).readable()
}

/// The status of the last device, where none could be read.
pub open spec fn last_failure(devices: Seq<DeviceReading>) -> i32 {
    if devices.len() == 0 || devices.last().status == 0 {
        -1i32
    } else {
        devices.last().status
    }
}

/// What the devices' answers come to.
pub open spec fn devices_answer(devices: Seq<DeviceReading>) -> Result<bool, i32> {
    if any_running(devices) {
        Ok(true)
    } else if any_readable(devices) {
        Ok(false)
    } else {
        Err(last_failure(devices))
    }
}

/// What all the answers come to: an odd size is no list of numbers, and more
/// filled than asked for is no answer.
pub open spec fn probe_answer(probe: CameraProbe) -> Result<bool, i32> {
    if probe.size_status != 0 {
        Err(probe.size_status)
    } else if probe.size % 4 != 0 {
        Err(-1i32)
    } else if probe.size == 0 {
        Ok(false)
    } else if probe.list_status != 0 {
        Err(probe.list_status)
    } else if probe.list_used % 4 != 0 || probe.list_used > probe.size {
        Err(-1i32)
    } else {
        let count = probe.list_used as int / 4;
        devices_answer(
            if count < probe.devices@.len() {
                probe.devices@.take(count)
            } else {
                probe.devices@
            },
        )
    }
}

/// Whether a camera is in use, or the status of what could not be read.
pub fn macos_camera_in_use(probe: &CameraProbe) -> (answer: Result<bool, i32>)
    ensures
        answer == probe_answer(*probe),
{
    if probe.size_status != 0 {
        return Err(probe.size_status);
    }
    if probe.size % 4 != 0 {
        return Err(-1);
    }
    let device_count: u32 = probe.size / 4;
    if device_count == 0 {
        return Ok(false);
    }
    if probe.list_status != 0 {
        return Err(probe.list_status);
    }
    if probe.list_used % 4 != 0 || probe.list_used / 4 > device_count {
        return Err(-1);
    }
    let used_count: usize = (probe.list_used / 4) as usize;
    let count: usize = if used_count < probe.devices.len() {
        used_count
    } else {
        probe.devices.len()
    };
    let ghost devices = probe.devices@.take(count as int);
    assert(count == probe.devices@.len() ==> devices =~= probe.devices@);
    assert(probe_answer(*probe) == devices_answer(devices));
    let mut last_error: Option<i32> = None;
    let mut read_any: bool = false;
    let mut i: usize = 0;
    while i < count
        invariant
            i <= count <= probe.devices@.len(),
            devices == probe.devices@.take(count as int),
            probe_answer(*probe) == devices_answer(devices),
            !any_running(devices.take(i as int)),
            read_any == any_readable(devices.take(i as int)),
            !read_any ==> (last_error is None <==> i == 0),
            !read_any && i > 0 ==> last_error->0 == last_failure(devices.take(i as int)),
        decreases count - i,
    {
        let device: DeviceReading = probe.devices[i];
        proof {
            let shorter = devices.take(i as int);
            let longer = devices.take(i + 1);
            assert(longer.last() == device);
            assert(forall|j: int| 0 <= j < i ==> longer[j] == shorter[j]);
            assert(longer[i as int] == device);
            if any_running(longer) && !(device.readable() && device.running != 0) {
                let j = choose|j: int|
                    0 <= j < longer.len() && (#[trigger] longer[j]).readable() && longer[j].running
                        != 0;
                assert(shorter[j] == longer[j]);
                assert(any_running(shorter));
            }
            if any_readable(longer) && !device.readable() {
                let j = choose|j: int| 0 <= j < longer.len() && (#[trigger] longer[j]).readable();
                assert(shorter[j] == longer[j]);
            }
            if any_readable(shorter) {
                let j = choose|j: int| 0 <= j < shorter.len() && (#[trigger] shorter[j]).readable();
                assert(longer[j] == shorter[j]);
            }
        }
        if device.status != 0 {
            last_error = Some(device.status);
        } else if device.used != 4 {
            last_error = Some(-1);
        } else {
            read_any = true;
            if device.running != 0 {
                assert(devices[i as int] == device);
                return Ok(true);
            }
        }
        i = i + 1;
    }
    assert(devices.take(i as int) =~= devices);
    if read_any {
        Ok(false)
    } else {
        match last_error {
            Some(status) => Err(status),
            None => Err(-1),
        }
    }
}

// ── Laws ────────────────────────────────────────────────────────────────────

/// What is reported follows the camera: an active sample reports use at once, the first
/// sample is always reported, and of a camera in use the second inactive sample in a row
/// reports its end, not the first. A debouncer that reported no use stays there while no
/// sample is active.
pub proof fn reports_follow_the_camera(debouncer: CameraDebouncer)
    ensures
        debouncer.after(true).emitted == Some(true),
        debouncer.after(true).inactive_samples == 0,
        debouncer.emitted != Some(true) ==> debouncer.after(false).emitted == Some(false),
        debouncer.emitted == Some(true) && debouncer.inactive_samples == 0 ==> {
            &&& debouncer.after(false).emitted == Some(true)
            &&& debouncer.after(false).after(false).emitted == Some(false)
            &&& debouncer.after(false).after(true).after(false).emitted == Some(true)
        },
{
}

/// A client holds the camera exactly from a start until its stop: a start stamp without
/// a stop stamp. A missing stamp was never written; one that cannot be read hides what
/// the client does.
pub proof fn clients_hold_from_start_to_stop(started: u64, stopped: u64, status: i32, other: Reading<u64>)
    ensures
        client_scan(
            ClientStamps { started: Reading::Found(started), stopped: Reading::Found(stopped) },
        ) == (if started > 0 && stopped == 0 {
            Scan::Holding
        } else {
            Scan::NoneHolding
        }),
        client_scan(ClientStamps { started: Reading::Found(started), stopped: Reading::Missing })
            == (if started > 0 {
            Scan::Holding
        } else {
            Scan::NoneHolding
        }),
        client_scan(ClientStamps { started: Reading::Missing, stopped: Reading::Found(stopped) })
            == Scan::NoneHolding,
        client_scan(ClientStamps { started: Reading::Missing, stopped: Reading::Missing })
            == Scan::NoneHolding,
        client_scan(ClientStamps { started: Reading::Failed(status), stopped: other })
            == Scan::Unreadable(status),
        !(other is Failed) ==> client_scan(
            ClientStamps { started: other, stopped: Reading::Failed(status) },
        ) == Scan::Unreadable(status),
{
}

/// Putting findings together: use is never hidden, a failure is hidden by use alone, and
/// the first failure is the one that counts.
pub proof fn use_outranks_failure(status: i32, other: i32, scan: Scan)
    ensures
        Scan::Holding.merged(scan) == Scan::Holding,
        scan.merged(Scan::Holding) == Scan::Holding,
        Scan::Unreadable(status).merged(Scan::Unreadable(other)) == Scan::Unreadable(status),
        Scan::Unreadable(status).merged(Scan::NoneHolding) == Scan::Unreadable(status),
        Scan::NoneHolding.merged(Scan::Unreadable(status)) == Scan::Unreadable(status),
        Scan::NoneHolding.merged(Scan::NoneHolding) == Scan::NoneHolding,
        Scan::Holding.as_answer() == Ok::<bool, i32>(true),
        Scan::NoneHolding.as_answer() == Ok::<bool, i32>(false),
        Scan::Unreadable(status).as_answer() == Err::<bool, i32>(status),
{
}

/// A store shows use exactly where one of its clients, at the top or among the unpackaged
/// ones, holds the camera. It shows no use only where everything could be read.
pub proof fn stores_show_their_clients(entries: Seq<Reading<ClientStamps>>)
    ensures
        clients_scan(entries) == Scan::Holding <==> exists|i: int|
            0 <= i < entries.len() && entry_scan(#[trigger] entries[i]) == Scan::Holding,
        clients_scan(entries) == Scan::NoneHolding <==> forall|i: int|
            0 <= i < entries.len() ==> entry_scan(#[trigger] entries[i]) == Scan::NoneHolding,
    decreases entries.len(),
{
    if entries.len() > 0 {
        let before = entries.drop_last();
        let last = entries.len() - 1;
        stores_show_their_clients(before);
        assert(forall|i: int| 0 <= i < before.len() ==> #[trigger] before[i] == entries[i]);
        assert(entries[last] == entries.last());
        if clients_scan(before) == Scan::Holding {
            let i = choose|i: int|
                0 <= i < before.len() && entry_scan(#[trigger] before[i]) == Scan::Holding;
            assert(entry_scan(entries[i]) == Scan::Holding);
        }
        if exists|i: int|
            0 <= i < entries.len() && entry_scan(#[trigger] entries[i]) == Scan::Holding {
            let i = choose|i: int|
                0 <= i < entries.len() && entry_scan(#[trigger] entries[i]) == Scan::Holding;
            if i < last {
                assert(entry_scan(before[i]) == Scan::Holding);
            }
        }
        if forall|i: int|
            0 <= i < entries.len() ==> entry_scan(#[trigger] entries[i]) == Scan::NoneHolding {
            assert forall|i: int| 0 <= i < before.len() implies entry_scan(#[trigger] before[i])
                == Scan::NoneHolding by {
                assert(entry_scan(entries[i]) == Scan::NoneHolding);
            }
            assert(entry_scan(entries[last]) == Scan::NoneHolding);
        }
        if clients_scan(entries) == Scan::NoneHolding {
            assert(clients_scan(before) == Scan::NoneHolding);
            assert forall|i: int| 0 <= i < entries.len() implies entry_scan(#[trigger] entries[i])
                == Scan::NoneHolding by {
                if i < last {
                    assert(entry_scan(before[i]) == Scan::NoneHolding);
                }
            }
        }
    }
}

/// An entry, a list of unpackaged clients or a hive that is gone says nothing; one that
/// cannot be read says so; and both halves of a store count.
pub proof fn gone_is_silent_and_failed_is_not(store: ConsentStore, status: i32)
    ensures
        entry_scan(Reading::Missing) == Scan::NoneHolding,
        entry_scan(Reading::Failed(status)) == Scan::Unreadable(status),
        hive_scan(Reading::Missing) == Scan::NoneHolding,
        hive_scan(Reading::Failed(status)) == Scan::Unreadable(status),
        hive_scan(Reading::Found(store)) == store_scan(store),
        clients_scan(store.clients@) == Scan::Holding ==> store_scan(store) == Scan::Holding,
        (store.non_packaged matches Reading::Found(entries) && clients_scan(entries@)
            == Scan::Holding) ==> store_scan(store) == Scan::Holding,
        store_scan(store) == Scan::NoneHolding ==> clients_scan(store.clients@)
            == Scan::NoneHolding && !(store.non_packaged is Failed),
        clients_scan(store.clients@) == Scan::NoneHolding && store.non_packaged is Missing
            ==> store_scan(store) == Scan::NoneHolding,
{
}

/// A probe that was answered in full reports use exactly where one of the listed devices
/// that can be read runs; it fails where none can be read; and with no device at all
/// there is no use.
pub proof fn probes_report_running_devices(probe: CameraProbe, at: int)
    requires
        probe.size_status == 0,
        probe.list_status == 0,
        probe.size % 4 == 0,
        probe.list_used == probe.size,
        probe.devices@.len() * 4 == probe.size,
        0 <= at < probe.devices@.len(),
    ensures
        probe.devices@[at].status == 0 && probe.devices@[at].used == 4 && probe.devices@[at].running
            != 0 ==> probe_answer(probe) == Ok::<bool, i32>(true),
        (forall|i: int|
            0 <= i < probe.devices@.len() ==> !((#[trigger] probe.devices@[i]).status == 0
                && probe.devices@[i].used == 4 && probe.devices@[i].running != 0))
            ==> probe_answer(probe) != Ok::<bool, i32>(true),
        (forall|i: int|
            0 <= i < probe.devices@.len() ==> (#[trigger] probe.devices@[i]).status == 0
                && probe.devices@[i].used == 4 && probe.devices@[i].running == 0) ==> probe_answer(
            probe,
        ) == Ok::<bool, i32>(false),
        (forall|i: int| 0 <= i < probe.devices@.len() ==> (#[trigger] probe.devices@[i]).status != 0)
            ==> probe_answer(probe) == Err::<bool, i32>(probe.devices@.last().status),
{
    let devices = probe.devices@;
    assert(probe_answer(probe) == devices_answer(devices));
    if devices[at].readable() && devices[at].running != 0 {
        assert(any_running(devices));
    }
    if devices[at].readable() {
        assert(any_readable(devices));
    }
    assert(devices[devices.len() - 1] == devices.last());
}

/// A probe that failed on the way says where: by the status that it got, or by minus one
/// for an answer that is no list of numbers.
pub proof fn failed_probes_say_so(probe: CameraProbe)
    ensures
        probe.size_status != 0 ==> probe_answer(probe) == Err::<bool, i32>(probe.size_status),
        probe.size_status == 0 && probe.size % 4 != 0 ==> probe_answer(probe) == Err::<bool, i32>(
            -1i32,
        ),
        probe.size_status == 0 && probe.size == 0 ==> probe_answer(probe) == Ok::<bool, i32>(false),
        probe.size_status == 0 && probe.size % 4 == 0 && probe.size > 0 && probe.list_status != 0
            ==> probe_answer(probe) == Err::<bool, i32>(probe.list_status),
        probe.size_status == 0 && probe.size % 4 == 0 && probe.size > 0 && probe.list_status == 0
            && (probe.list_used % 4 != 0 || probe.list_used > probe.size) ==> probe_answer(probe)
            == Err::<bool, i32>(-1i32),
{
}

/// A probe in which no device could be read fails by the last device's status, or by minus
/// one where that device answered, but not with a number.
pub proof fn unreadable_devices_fail_the_probe(devices: Seq<DeviceReading>)
    requires
        devices.len() > 0,
        forall|i: int|
            0 <= i < devices.len() ==> (#[trigger] devices[i]).status != 0 || devices[i].used != 4,
    ensures
        devices.last().status != 0 ==> devices_answer(devices) == Err::<bool, i32>(
            devices.last().status,
        ),
        devices.last().status == 0 ==> devices_answer(devices) == Err::<bool, i32>(-1i32),
        devices_answer(Seq::empty()) == Err::<bool, i32>(-1i32),
{
}

} // verus!
