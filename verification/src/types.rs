//! The records that `lctl get_param` output is parsed into, and their views.

use vstd::prelude::*;

verus! {

/// `snapshot_time` and, since 2.14.52, `start_time` of a stats block, as the
/// kernel prints them (`<secs>.<nsecs>`).
#[derive(Debug, Clone, PartialEq, Eq)]
pub struct StatsHeader {
    pub snapshot_time: String,
    pub start_time: Option<String>,
}

pub struct StatsHeaderView {
    pub snapshot_time: Seq<char>,
    pub start_time: Option<Seq<char>>,
}

impl DeepView for StatsHeader {
    type V = StatsHeaderView;

    open spec fn deep_view(&self) -> StatsHeaderView {
        StatsHeaderView { snapshot_time: self.snapshot_time@, start_time: self.start_time.deep_view() }
    }
}

/// A `name: value` line.
#[derive(Debug, Clone, PartialEq, Eq)]
pub struct KeyValue {
    pub name: String,
    pub value: u64,
}

pub struct KeyValueView {
    pub name: Seq<char>,
    pub value: u64,
}

impl DeepView for KeyValue {
    type V = KeyValueView;

    open spec fn deep_view(&self) -> KeyValueView {
        KeyValueView { name: self.name@, value: self.value }
    }
}

/// A `name  <samples> samples [<units>] [<min> <max> <sum> [<sumsq>]]` line.
#[derive(Debug, Clone, PartialEq, Eq)]
pub struct Stat {
    pub name: String,
    pub units: String,
    pub samples: u64,
    pub min: Option<u64>,
    pub max: Option<u64>,
    pub sum: Option<u64>,
    pub sumsquare: Option<u64>,
}

pub struct StatView {
    pub name: Seq<char>,
    pub units: Seq<char>,
    pub samples: u64,
    pub min: Option<u64>,
    pub max: Option<u64>,
    pub sum: Option<u64>,
    pub sumsquare: Option<u64>,
}

impl DeepView for Stat {
    type V = StatView;

    open spec fn deep_view(&self) -> StatView {
        StatView {
            name: self.name@,
            units: self.units@,
            samples: self.samples,
            min: self.min,
            max: self.max,
            sum: self.sum,
            sumsquare: self.sumsquare,
        }
    }
}

/// One row of a one-sided histogram: `<key>: <count> <pct> <cum>`.
#[derive(Debug, Clone, Copy, PartialEq, Eq)]
pub struct CountBucket {
    pub key: u64,
    pub count: u64,
}

impl DeepView for CountBucket {
    type V = CountBucket;

    open spec fn deep_view(&self) -> CountBucket {
        *self
    }
}

/// One row of a read/write histogram.
#[derive(Debug, Clone, Copy, PartialEq, Eq)]
pub struct BrwStatsBucket {
    pub name: u64,
    pub read: u64,
    pub write: u64,
}

impl DeepView for BrwStatsBucket {
    type V = BrwStatsBucket;

    open spec fn deep_view(&self) -> BrwStatsBucket {
        *self
    }
}

/// A read/write histogram: its name, its unit and its rows.
#[derive(Debug, Clone, PartialEq, Eq)]
pub struct BrwStats {
    pub name: String,
    pub unit: String,
    pub buckets: Vec<BrwStatsBucket>,
}

pub struct BrwStatsView {
    pub name: Seq<char>,
    pub unit: Seq<char>,
    pub buckets: Seq<BrwStatsBucket>,
}

impl DeepView for BrwStats {
    type V = BrwStatsView;

    open spec fn deep_view(&self) -> BrwStatsView {
        BrwStatsView { name: self.name@, unit: self.unit@, buckets: self.buckets.deep_view() }
    }
}

/// `osc.*.rpc_stats` and `mdc.*.rpc_stats`.
#[derive(Debug, Clone, PartialEq, Eq)]
pub struct RpcStats {
    pub scalars: Vec<KeyValue>,
    pub modify_rpcs_in_flight: Option<Vec<CountBucket>>,
    pub histograms: Vec<BrwStats>,
}

pub struct RpcStatsView {
    pub scalars: Seq<KeyValueView>,
    pub modify_rpcs_in_flight: Option<Seq<CountBucket>>,
    pub histograms: Seq<BrwStatsView>,
}

impl DeepView for RpcStats {
    type V = RpcStatsView;

    open spec fn deep_view(&self) -> RpcStatsView {
        RpcStatsView {
            scalars: self.scalars.deep_view(),
            modify_rpcs_in_flight: self.modify_rpcs_in_flight.deep_view(),
            histograms: self.histograms.deep_view(),
        }
    }
}

/// `osc.*.osc_stats` and `mdc.*.mdc_stats`.
#[derive(Debug, Clone, Copy, PartialEq, Eq)]
pub struct LocklessStats {
    pub write_bytes: u64,
    pub read_bytes: u64,
    pub truncates: Option<u64>,
}

impl DeepView for LocklessStats {
    type V = LocklessStats;

    open spec fn deep_view(&self) -> LocklessStats {
        *self
    }
}

/// One row of `extents_stats`: a size range and the calls in it.
#[derive(Debug, Clone, Copy, PartialEq, Eq)]
pub struct ExtentsBucket {
    pub lower_bytes: u64,
    pub upper_bytes: u64,
    pub overflow: bool,
    pub read_calls: u64,
    pub write_calls: u64,
}

impl DeepView for ExtentsBucket {
    type V = ExtentsBucket;

    open spec fn deep_view(&self) -> ExtentsBucket {
        *self
    }
}

/// One `PID:` block of `extents_stats_per_process`.
#[derive(Debug, Clone, PartialEq, Eq)]
pub struct ProcessExtents {
    pub pid: u64,
    pub buckets: Vec<ExtentsBucket>,
}

pub struct ProcessExtentsView {
    pub pid: u64,
    pub buckets: Seq<ExtentsBucket>,
}

impl DeepView for ProcessExtents {
    type V = ProcessExtentsView;

    open spec fn deep_view(&self) -> ProcessExtentsView {
        ProcessExtentsView { pid: self.pid, buckets: self.buckets.deep_view() }
    }
}

/// A table that the kernel only fills once it is switched on.
#[derive(Debug, Clone, PartialEq, Eq)]
pub enum RwStats<T> {
    Disabled,
    Enabled { header: StatsHeader, value: T },
}

pub enum RwStatsView<V> {
    Disabled,
    Enabled { header: StatsHeaderView, value: V },
}

impl<T: DeepView> DeepView for RwStats<T> {
    type V = RwStatsView<T::V>;

    open spec fn deep_view(&self) -> RwStatsView<T::V> {
        match self {
            RwStats::Disabled => RwStatsView::Disabled,
            RwStats::Enabled { header, value } => RwStatsView::Enabled {
                header: header.deep_view(),
                value: value.deep_view(),
            },
        }
    }
}

/// The state of an import (`ptlrpc_import_state_name()`).
#[derive(Debug, Clone, Copy, PartialEq, Eq, Structural)]
pub enum ControllerState {
    Closed,
    New,
    Disconn,
    Connecting,
    Replay,
    ReplayLocks,
    ReplayWait,
    Recover,
    Full,
    Evicted,
    Idle,
}

/// The name the kernel prints for each import state.
pub open spec fn spec_state_name(x: ControllerState) -> Seq<char> {
    match x {
        ControllerState::Closed => "CLOSED"@,
        ControllerState::New => "NEW"@,
        ControllerState::Disconn => "DISCONN"@,
        ControllerState::Connecting => "CONNECTING"@,
        ControllerState::Replay => "REPLAY"@,
        ControllerState::ReplayLocks => "REPLAY_LOCKS"@,
        ControllerState::ReplayWait => "REPLAY_WAIT"@,
        ControllerState::Recover => "RECOVER"@,
        ControllerState::Full => "FULL"@,
        ControllerState::Evicted => "EVICTED"@,
        ControllerState::Idle => "IDLE"@,
    }
}

impl ControllerState {
    /// The name the kernel prints for the state.
    pub fn name(&self) -> (r: &'static str)
        ensures
            r@ == spec_state_name(*self),
    {
        match self {
            ControllerState::Closed => "CLOSED",
            ControllerState::New => "NEW",
            ControllerState::Disconn => "DISCONN",
            ControllerState::Connecting => "CONNECTING",
            ControllerState::Replay => "REPLAY",
            ControllerState::ReplayLocks => "REPLAY_LOCKS",
            ControllerState::ReplayWait => "REPLAY_WAIT",
            ControllerState::Recover => "RECOVER",
            ControllerState::Full => "FULL",
            ControllerState::Evicted => "EVICTED",
            ControllerState::Idle => "IDLE",
        }
    }
}

/// `osc.*.state`: the import's current state.
#[derive(Debug, Clone, Copy, PartialEq, Eq, Structural)]
pub struct OscState {
    pub current_state: ControllerState,
}

impl DeepView for OscState {
    type V = OscState;

    open spec fn deep_view(&self) -> OscState {
        *self
    }
}

/// The client-side device a controller parameter belongs to.
#[derive(Debug, Clone, Copy, PartialEq, Eq, Structural)]
pub enum ControllerVariant {
    Osc,
    Mdc,
}

/// The server-side target kinds.
#[derive(Debug, Clone, Copy, PartialEq, Eq, Structural)]
pub enum TargetVariant {
    Ost,
    Mgt,
    Mdt,
}

/// A parameter name, as in `llite.<target>.<param>=`.
#[derive(Debug, Clone, PartialEq, Eq)]
pub struct Param(pub String);

/// A target or device instance name.
#[derive(Debug, Clone, PartialEq, Eq)]
pub struct Target(pub String);

impl DeepView for Param {
    type V = Seq<char>;

    open spec fn deep_view(&self) -> Seq<char> {
        self.0@
    }
}

impl DeepView for Target {
    type V = Seq<char>;

    open spec fn deep_view(&self) -> Seq<char> {
        self.0@
    }
}

/// A value of a controller (osc or mdc) parameter.
#[derive(Debug, Clone, PartialEq, Eq)]
pub struct ControllerStat<T> {
    pub kind: ControllerVariant,
    pub param: Param,
    pub controller: Target,
    pub value: T,
}

pub struct ControllerStatView<V> {
    pub kind: ControllerVariant,
    pub param: Seq<char>,
    pub controller: Seq<char>,
    pub value: V,
}

impl<T: DeepView> DeepView for ControllerStat<T> {
    type V = ControllerStatView<T::V>;

    open spec fn deep_view(&self) -> ControllerStatView<T::V> {
        ControllerStatView {
            kind: self.kind,
            param: self.param.deep_view(),
            controller: self.controller.deep_view(),
            value: self.value.deep_view(),
        }
    }
}

/// A value of a controller parameter that has a stats header.
#[derive(Debug, Clone, PartialEq, Eq)]
pub struct TimedControllerStat<T> {
    pub kind: ControllerVariant,
    pub param: Param,
    pub controller: Target,
    pub value: T,
    pub header: StatsHeader,
}

pub struct TimedControllerStatView<V> {
    pub kind: ControllerVariant,
    pub param: Seq<char>,
    pub controller: Seq<char>,
    pub value: V,
    pub header: StatsHeaderView,
}

impl<T: DeepView> DeepView for TimedControllerStat<T> {
    type V = TimedControllerStatView<T::V>;

    open spec fn deep_view(&self) -> TimedControllerStatView<T::V> {
        TimedControllerStatView {
            kind: self.kind,
            param: self.param.deep_view(),
            controller: self.controller.deep_view(),
            value: self.value.deep_view(),
            header: self.header.deep_view(),
        }
    }
}

/// The osc and mdc parameters.
#[derive(Debug, Clone, PartialEq, Eq)]
pub enum ControllerStats {
    OscState(ControllerStat<OscState>),
    Stats(TimedControllerStat<Vec<Stat>>),
    MdStats(TimedControllerStat<Vec<Stat>>),
    RpcStats(TimedControllerStat<RpcStats>),
    IoLatencyStats(TimedControllerStat<Vec<BrwStats>>),
    LocklessStats(TimedControllerStat<LocklessStats>),
    UnstableStats(ControllerStat<Vec<KeyValue>>),
    CompressionStats(ControllerStat<Vec<KeyValue>>),
    CurGrantBytes(ControllerStat<u64>),
    CurDirtyBytes(ControllerStat<u64>),
}

pub enum ControllerStatsView {
    OscState(ControllerStatView<OscState>),
    Stats(TimedControllerStatView<Seq<StatView>>),
    MdStats(TimedControllerStatView<Seq<StatView>>),
    RpcStats(TimedControllerStatView<RpcStatsView>),
    IoLatencyStats(TimedControllerStatView<Seq<BrwStatsView>>),
    LocklessStats(TimedControllerStatView<LocklessStats>),
    UnstableStats(ControllerStatView<Seq<KeyValueView>>),
    CompressionStats(ControllerStatView<Seq<KeyValueView>>),
    CurGrantBytes(ControllerStatView<u64>),
    CurDirtyBytes(ControllerStatView<u64>),
}

impl DeepView for ControllerStats {
    type V = ControllerStatsView;

    open spec fn deep_view(&self) -> ControllerStatsView {
        match self {
            ControllerStats::OscState(x) => ControllerStatsView::OscState(x.deep_view()),
            ControllerStats::Stats(x) => ControllerStatsView::Stats(x.deep_view()),
            ControllerStats::MdStats(x) => ControllerStatsView::MdStats(x.deep_view()),
            ControllerStats::RpcStats(x) => ControllerStatsView::RpcStats(x.deep_view()),
            ControllerStats::IoLatencyStats(x) => ControllerStatsView::IoLatencyStats(x.deep_view()),
            ControllerStats::LocklessStats(x) => ControllerStatsView::LocklessStats(x.deep_view()),
            ControllerStats::UnstableStats(x) => ControllerStatsView::UnstableStats(x.deep_view()),
            ControllerStats::CompressionStats(x) => ControllerStatsView::CompressionStats(
                x.deep_view(),
            ),
            ControllerStats::CurGrantBytes(x) => ControllerStatsView::CurGrantBytes(x.deep_view()),
            ControllerStats::CurDirtyBytes(x) => ControllerStatsView::CurDirtyBytes(x.deep_view()),
        }
    }
}

impl ControllerStats {
    /// The device the value belongs to.
    pub fn controller(&self) -> (r: &Target)
        ensures
            r.deep_view() == controller_of(self.deep_view()),
    {
        match self {
            ControllerStats::OscState(x) => &x.controller,
            ControllerStats::Stats(x) => &x.controller,
            ControllerStats::MdStats(x) => &x.controller,
            ControllerStats::RpcStats(x) => &x.controller,
            ControllerStats::IoLatencyStats(x) => &x.controller,
            ControllerStats::LocklessStats(x) => &x.controller,
            ControllerStats::UnstableStats(x) => &x.controller,
            ControllerStats::CompressionStats(x) => &x.controller,
            ControllerStats::CurGrantBytes(x) => &x.controller,
            ControllerStats::CurDirtyBytes(x) => &x.controller,
        }
    }
}

pub open spec fn controller_of(x: ControllerStatsView) -> Seq<char> {
    match x {
        ControllerStatsView::OscState(x) => x.controller,
        ControllerStatsView::Stats(x) => x.controller,
        ControllerStatsView::MdStats(x) => x.controller,
        ControllerStatsView::RpcStats(x) => x.controller,
        ControllerStatsView::IoLatencyStats(x) => x.controller,
        ControllerStatsView::LocklessStats(x) => x.controller,
        ControllerStatsView::UnstableStats(x) => x.controller,
        ControllerStatsView::CompressionStats(x) => x.controller,
        ControllerStatsView::CurGrantBytes(x) => x.controller,
        ControllerStatsView::CurDirtyBytes(x) => x.controller,
    }
}

/// `llite.*.stats` and `llite.*.read_ahead_stats`.
#[derive(Debug, Clone, PartialEq, Eq)]
pub struct LliteStat {
    pub target: Target,
    pub param: Param,
    pub stats: Vec<Stat>,
    pub header: StatsHeader,
}

pub struct LliteStatView {
    pub target: Seq<char>,
    pub param: Seq<char>,
    pub stats: Seq<StatView>,
    pub header: StatsHeaderView,
}

impl DeepView for LliteStat {
    type V = LliteStatView;

    open spec fn deep_view(&self) -> LliteStatView {
        LliteStatView {
            target: self.target.deep_view(),
            param: self.param.deep_view(),
            stats: self.stats.deep_view(),
            header: self.header.deep_view(),
        }
    }
}

/// Any other llite parameter.
#[derive(Debug, Clone, PartialEq, Eq)]
pub struct LliteTargetStat<T> {
    pub target: Target,
    pub param: Param,
    pub value: T,
}

pub struct LliteTargetStatView<V> {
    pub target: Seq<char>,
    pub param: Seq<char>,
    pub value: V,
}

impl<T: DeepView> DeepView for LliteTargetStat<T> {
    type V = LliteTargetStatView<T::V>;

    open spec fn deep_view(&self) -> LliteTargetStatView<T::V> {
        LliteTargetStatView {
            target: self.target.deep_view(),
            param: self.param.deep_view(),
            value: self.value.deep_view(),
        }
    }
}

/// `<mdt|obdfilter>.<target>.exports.<nid>.uuid=`: the UUIDs of the clients
/// that a target exports to one NID, one per line.
#[derive(Debug, Clone, PartialEq, Eq)]
pub struct ExportUuids {
    pub kind: TargetVariant,
    pub target: Target,
    pub nid: String,
    pub uuids: Vec<String>,
}

pub struct ExportUuidsView {
    pub kind: TargetVariant,
    pub target: Seq<char>,
    pub nid: Seq<char>,
    pub uuids: Seq<Seq<char>>,
}

impl DeepView for ExportUuids {
    type V = ExportUuidsView;

    open spec fn deep_view(&self) -> ExportUuidsView {
        ExportUuidsView {
            kind: self.kind,
            target: self.target.deep_view(),
            nid: self.nid@,
            uuids: self.uuids.deep_view(),
        }
    }
}

/// The llite parameters, and the exports of server targets.
#[derive(Debug, Clone, PartialEq, Eq)]
pub enum TargetStats {
    Llite(LliteStat),
    LliteReadAheadStats(LliteStat),
    LliteExtentsStats(LliteTargetStat<RwStats<Vec<ExtentsBucket>>>),
    LliteExtentsStatsPerProcess(LliteTargetStat<RwStats<Vec<ProcessExtents>>>),
    LliteStataheadStats(LliteTargetStat<Vec<KeyValue>>),
    LliteUnstableStats(LliteTargetStat<Vec<KeyValue>>),
    ExportUuids(ExportUuids),
}

pub enum TargetStatsView {
    Llite(LliteStatView),
    LliteReadAheadStats(LliteStatView),
    LliteExtentsStats(LliteTargetStatView<RwStatsView<Seq<ExtentsBucket>>>),
    LliteExtentsStatsPerProcess(LliteTargetStatView<RwStatsView<Seq<ProcessExtentsView>>>),
    LliteStataheadStats(LliteTargetStatView<Seq<KeyValueView>>),
    LliteUnstableStats(LliteTargetStatView<Seq<KeyValueView>>),
    ExportUuids(ExportUuidsView),
}

impl DeepView for TargetStats {
    type V = TargetStatsView;

    open spec fn deep_view(&self) -> TargetStatsView {
        match self {
            TargetStats::Llite(x) => TargetStatsView::Llite(x.deep_view()),
            TargetStats::LliteReadAheadStats(x) => TargetStatsView::LliteReadAheadStats(x.deep_view()),
            TargetStats::LliteExtentsStats(x) => TargetStatsView::LliteExtentsStats(x.deep_view()),
            TargetStats::LliteExtentsStatsPerProcess(x) => TargetStatsView::LliteExtentsStatsPerProcess(
                x.deep_view(),
            ),
            TargetStats::LliteStataheadStats(x) => TargetStatsView::LliteStataheadStats(x.deep_view()),
            TargetStats::LliteUnstableStats(x) => TargetStatsView::LliteUnstableStats(x.deep_view()),
            TargetStats::ExportUuids(x) => TargetStatsView::ExportUuids(x.deep_view()),
        }
    }
}

/// Top-level parameters of the node.
#[derive(Debug, Clone, PartialEq, Eq)]
pub enum HostStats {
    MemUsed(u64),
    MemUsedMax(u64),
    LNetMemUsed(u64),
    HealthCheck(String),
}

pub enum HostStatsView {
    MemUsed(u64),
    MemUsedMax(u64),
    LNetMemUsed(u64),
    HealthCheck(Seq<char>),
}

impl DeepView for HostStats {
    type V = HostStatsView;

    open spec fn deep_view(&self) -> HostStatsView {
        match self {
            HostStats::MemUsed(x) => HostStatsView::MemUsed(*x),
            HostStats::MemUsedMax(x) => HostStatsView::MemUsedMax(*x),
            HostStats::LNetMemUsed(x) => HostStatsView::LNetMemUsed(*x),
            HostStats::HealthCheck(x) => HostStatsView::HealthCheck(x@),
        }
    }
}

/// One parsed parameter.
#[derive(Debug, Clone, PartialEq, Eq)]
pub enum Record {
    Host(HostStats),
    Target(TargetStats),
    Controller(ControllerStats),
}

pub enum RecordView {
    Host(HostStatsView),
    Target(TargetStatsView),
    Controller(ControllerStatsView),
}

impl DeepView for Record {
    type V = RecordView;

    open spec fn deep_view(&self) -> RecordView {
        match self {
            Record::Host(x) => RecordView::Host(x.deep_view()),
            Record::Target(x) => RecordView::Target(x.deep_view()),
            Record::Controller(x) => RecordView::Controller(x.deep_view()),
        }
    }
}

} // verus!
