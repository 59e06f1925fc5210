//! Counters of memory controllers: which there are, what they say, and which
//! metrics follow.
use crate::bench::backend::{MetricFormat, MetricValue};
use crate::bench::perf;
use crate::bench::perf::{less_scheduled, scale_multiplexed_count, PerfIssues};
use crate::double::DoubleBits;
use crate::numbers::{NumberStyle, NumberTexts};
use crate::parse;
use crate::text;
use crate::time::Nanos;
use vstd::prelude::*;

verus! {

/// The section that the metrics stand in.
pub const METRIC_SECTION: &'static str = "System memory bandwidth";

/// Twenty-five percent, as a number.
pub const MIN_RELIABLE_SCHEDULED_PERCENT: u64 = 0x4039_0000_0000_0000;

/// Ten milliseconds, in nanoseconds.
pub const MIN_RELIABLE_RUNNING_NS: u64 = 10_000_000;

/// How much of the system the counters cover.
#[derive(Clone, Copy, Debug, PartialEq, Eq, Structural)]
pub enum MemoryBandwidthScope {
    SystemUnavailable,
    SystemPartial,
    SystemComplete,
}

impl Default for MemoryBandwidthScope {
    fn default() -> (r: MemoryBandwidthScope)
        ensures
            r == MemoryBandwidthScope::SystemUnavailable,
    {
        MemoryBandwidthScope::SystemUnavailable
    }
}

/// The number of bytes in a unit, whose name is written without regard to case.
pub open spec fn unit_bytes(unit: Seq<char>) -> Option<u64> {
    let name = text::ascii_lower_all(parse::trimmed(unit));
    if name == "b"@ || name == "byte"@ || name == "bytes"@ {
        Some(1)
    } else if name == "kb"@ {
        Some(1_000)
    } else if name == "kib"@ {
        Some(1_024)
    } else if name == "mb"@ {
        Some(1_000_000)
    } else if name == "mib"@ {
        Some(1_048_576)
    } else if name == "gb"@ {
        Some(1_000_000_000)
    } else if name == "gib"@ {
        Some(1_073_741_824)
    } else {
        None
    }
}

pub fn byte_multiplier(unit: &str) -> (r: Option<u64>)
    ensures
        r == unit_bytes(unit@),
{
    let trimmed = text::string_of(parse::trim_chars(&text::chars_of(unit)).as_slice());
    let lower = text::string_of(text::ascii_lowercase_chars(trimmed.as_str()).as_slice());
    let name = lower.as_str();
    if text::same(name, "b") || text::same(name, "byte") || text::same(name, "bytes") {
        Some(1)
    } else if text::same(name, "kb") {
        Some(1_000)
    } else if text::same(name, "kib") {
        Some(1_024)
    } else if text::same(name, "mb") {
        Some(1_000_000)
    } else if text::same(name, "mib") {
        Some(1_048_576)
    } else if text::same(name, "gb") {
        Some(1_000_000_000)
    } else if text::same(name, "gib") {
        Some(1_073_741_824)
    } else {
        None
    }
}

/// A name made of `uncore_imc_` and a number.
pub open spec fn imc_name(name: Seq<char>) -> bool {
    let prefix = "uncore_imc_"@;
    &&& text::occurs_at(name, prefix, 0)
    &&& parse::all_digits(name.skip(prefix.len() as int))
}

pub fn is_imc_pmu_name(name: &str) -> (r: bool)
    ensures
        r == imc_name(name@),
{
    let ghost rest = name@.skip("uncore_imc_"@.len() as int);
    if !text::starts_with(name, "uncore_imc_") {
        return false;
    }
    let chars = text::chars_of(name);
    proof {
        reveal_strlit("uncore_imc_");
    }
    let mut i: usize = 11;
    if i == chars.len() {
        return false;
    }
    while i < chars.len()
        invariant
            11 <= i <= chars@.len(),
            chars@ == name@,
            rest == name@.skip(11),
            "uncore_imc_"@.len() == 11,
            forall|j: int| 0 <= j < i - 11 ==> parse::is_digit(#[trigger] rest[j]),
        decreases chars@.len() - i,
    {
        let c = chars[i];
        assert(rest[i - 11] == c);
        if !('0' <= c && c <= '9') {
            assert(!parse::is_digit(rest[i - 11]));
            return false;
        }
        i += 1;
    }
    true
}

/// The names of memory controllers among the given ones, in order.
pub open spec fn controllers(names: Seq<Seq<char>>) -> Seq<Seq<char>>
    decreases names.len(),
{
    if names.len() == 0 {
        Seq::empty()
    } else {
        let front = controllers(names.drop_last());
        if imc_name(names.last()) {
            placed(front, names.last())
        } else {
            front
        }
    }
}

/// A list with one more name, behind those that are not larger.
pub open spec fn placed(list: Seq<Seq<char>>, name: Seq<char>) -> Seq<Seq<char>>
    decreases list.len(),
{
    if list.len() == 0 || text::at_most(list.last(), name) {
        list.push(name)
    } else {
        placed(list.drop_last(), name).push(list.last())
    }
}

/// The names come in order.
pub open spec fn names_ordered(list: Seq<Seq<char>>) -> bool {
    forall|i: int, j: int|
        0 <= i <= j < list.len() ==> text::at_most(#[trigger] list[i], #[trigger] list[j])
}

proof fn placing_keeps_order(list: Seq<Seq<char>>, name: Seq<char>)
    requires
        names_ordered(list),
    ensures
        names_ordered(placed(list, name)),
        forall|x: Seq<char>|
            #![trigger placed(list, name).contains(x)]
            placed(list, name).contains(x) <==> x == name || list.contains(x),
    decreases list.len(),
{
    let r = placed(list, name);
    text::less_is_total(name, name);
    if list.len() == 0 || text::at_most(list.last(), name) {
        assert forall|i: int, j: int| 0 <= i <= j < r.len() implies text::at_most(
            #[trigger] r[i],
            #[trigger] r[j],
        ) by {
            if j == list.len() && i < list.len() {
                assert(text::at_most(list[i], list.last()));
                text::at_most_is_transitive(list[i], list.last(), name);
            }
        }
        assert forall|x: Seq<char>| #[trigger] r.contains(x) <==> x == name || list.contains(x) by {
            if list.contains(x) {
                let k = list.index_of(x);
                assert(r[k] == x);
            }
            assert(r[list.len() as int] == name);
        }
    } else {
        let front = list.drop_last();
        let last = list.last();
        placing_keeps_order(front, name);
        let f = placed(front, name);
        text::less_is_total(last, name);
        text::less_is_total(last, last);
        assert forall|i: int, j: int| 0 <= i <= j < r.len() implies text::at_most(
            #[trigger] r[i],
            #[trigger] r[j],
        ) by {
            if j == f.len() && i < f.len() {
                assert(f.contains(f[i]));
                if f[i] != name {
                    let k = front.index_of(f[i]);
                    assert(list[k] == f[i]);
                    assert(text::at_most(list[k], list[list.len() - 1]));
                }
            }
        }
        assert forall|x: Seq<char>| #[trigger] r.contains(x) <==> x == name || list.contains(x) by {
            if r.contains(x) {
                let k = r.index_of(x);
                if k < f.len() {
                    assert(f[k] == x);
                    assert(f.contains(x));
                    if x != name {
                        let m = front.index_of(x);
                        assert(list[m] == x);
                    }
                } else {
                    assert(list[list.len() - 1] == x);
                }
            }
            if x == name || list.contains(x) {
                if x == name {
                    assert(f.contains(x));
                    let k = f.index_of(x);
                    assert(r[k] == x);
                } else {
                    let k = list.index_of(x);
                    if k < front.len() {
                        assert(front[k] == x);
                        assert(f.contains(x));
                        let m = f.index_of(x);
                        assert(r[m] == x);
                    } else {
                        assert(r[f.len() as int] == x);
                    }
                }
            }
        }
    }
}

/// The controllers come in order, and are the names of controllers that were given.
pub proof fn controllers_are_ordered(names: Seq<Seq<char>>)
    ensures
        names_ordered(controllers(names)),
        forall|x: Seq<char>|
            #![trigger controllers(names).contains(x)]
            controllers(names).contains(x) <==> imc_name(x) && names.contains(x),
    decreases names.len(),
{
    if names.len() > 0 {
        let front = names.drop_last();
        controllers_are_ordered(front);
        placing_keeps_order(controllers(front), names.last());
        assert forall|x: Seq<char>| #[trigger]
            controllers(names).contains(x) <==> imc_name(x) && names.contains(x) by {
            if names.contains(x) {
                let k = names.index_of(x);
                if k < front.len() {
                    assert(front[k] == x);
                }
            }
            if front.contains(x) {
                let k = front.index_of(x);
                assert(names[k] == x);
            }
            assert(names[names.len() - 1] == names.last());
            assert(controllers(front).contains(x) <==> imc_name(x) && front.contains(x));
            assert(placed(controllers(front), names.last()).contains(x) <==> x == names.last()
                || controllers(front).contains(x));
        }
    }
}

proof fn placed_at(list: Seq<Seq<char>>, name: Seq<char>, at: int)
    requires
        0 <= at <= list.len(),
        forall|j: int| at <= j < list.len() ==> !text::at_most(#[trigger] list[j], name),
        at > 0 ==> text::at_most(list[at - 1], name),
    ensures
        placed(list, name) == list.insert(at, name),
    decreases list.len(),
{
    if at < list.len() {
        let front = list.drop_last();
        assert forall|j: int| at <= j < front.len() implies !text::at_most(
            #[trigger] front[j],
            name,
        ) by {
            assert(!text::at_most(list[j], name));
        }
        assert(!text::at_most(list[list.len() - 1], name));
        placed_at(front, name, at);
        assert(list.insert(at, name) =~= front.insert(at, name).push(list.last()));
    } else {
        assert(list.insert(at, name) =~= list.push(name));
    }
}

/// Picks the names of memory controllers and puts them in order.
pub fn imc_devices(names: &Vec<String>) -> (r: Vec<String>)
    ensures
        text::texts(r@) == controllers(text::texts(names@)),
{
    let ghost all = text::texts(names@);
    let mut r: Vec<String> = Vec::new();
    let mut i: usize = 0;
    assert(text::texts(r@) =~= controllers(all.take(0)));
    while i < names.len()
        invariant
            i <= names.len(),
            all == text::texts(names@),
            text::texts(r@) == controllers(all.take(i as int)),
        decreases names.len() - i,
    {
        let ghost front = text::texts(r@);
        proof {
            assert(all.take(i + 1).drop_last() =~= all.take(i as int));
            assert(all.take(i + 1).last() == names@[i as int]@);
        }
        let name = names[i].as_str();
        if is_imc_pmu_name(name) {
            let mut at: usize = r.len();
            while at > 0 && text::comes_before(name, r[at - 1].as_str())
                invariant
                    at <= r@.len(),
                    front == text::texts(r@),
                    forall|j: int|
                        at <= j < r@.len() ==> !text::at_most(#[trigger] front[j], name@),
                decreases at,
            {
                proof {
                    assert(front[at - 1] == r@[at - 1]@);
                    text::less_is_total(front[at - 1], name@);
                }
                at -= 1;
            }
            proof {
                if at > 0 {
                    assert(front[at - 1] == r@[at - 1]@);
                    text::less_is_total(front[at - 1], name@);
                }
                placed_at(front, name@, at as int);
            }
            r.insert(at, name.to_owned());
            assert(text::texts(r@) =~= front.insert(at as int, name@));
        }
        i += 1;
    }
    assert(all.take(all.len() as int) =~= all);
    r
}

/// The number of bytes in the unit of an event, where its scale is usable.
pub fn event_multiplier(scale: Option<DoubleBits>, unit: Option<&str>) -> (r: Result<u64, String>)
    ensures
        ({
            let positive = DoubleBits { bits: 0 };
            match r {
                Ok(multiplier) => scale is Some && scale->0.finite() && positive.below(scale->0)
                    && unit is Some && unit_bytes(unit->0@) == Some(multiplier),
                Err(message) => if !(scale is Some && scale->0.finite() && positive.below(
                    scale->0,
                )) {
                    message@ == "event has no usable scale"@
                } else if unit is None {
                    message@ == "event has no unit"@
                } else {
                    unit_bytes(unit->0@) is None && message@ == "unsupported event unit "@
                        + text::debug_form(unit->0@)
                },
            }
        }),
{
    let usable = match scale {
        Some(scale) => scale.is_finite() && DoubleBits::from_bits(0).lt(scale),
        None => false,
    };
    if !usable {
        return Err("event has no usable scale".to_owned());
    }
    match unit {
        None => Err("event has no unit".to_owned()),
        Some(unit) => match byte_multiplier(unit) {
            Some(multiplier) => Ok(multiplier),
            None => {
                let mut message = "unsupported event unit ".to_owned();
                message.append(text::debug_text(unit).as_str());
                Err(message)
            },
        },
    }
}

/// Accepts the scale of an event in bytes where it is finite and positive.
pub fn check_byte_scale(scale_bytes: DoubleBits) -> (r: Result<DoubleBits, String>)
    ensures
        r is Ok == (scale_bytes.finite() && DoubleBits { bits: 0 }.below(scale_bytes)),
        r matches Ok(scale) ==> scale == scale_bytes,
        r matches Err(message) ==> message@ == "event byte scale is not finite and positive"@,
{
    if scale_bytes.is_finite() && DoubleBits::from_bits(0).lt(scale_bytes) {
        Ok(scale_bytes)
    } else {
        Err("event byte scale is not finite and positive".to_owned())
    }
}

/// What was found out about one controller. The text of its list of processors
/// and the scales of its events are missing where an error came instead.
#[derive(Debug)]
pub struct ImcDevice {
    pub name: String,
    pub cpumask: Result<String, String>,
    pub read_scale: Result<DoubleBits, String>,
    pub write_scale: Result<DoubleBits, String>,
}

impl ImcDevice {
    /// The processors that the controller advertises.
    pub open spec fn cpus(&self) -> Option<Seq<usize>> {
        match self.cpumask {
            Ok(mask) => parse::cpu_list(mask@),
            Err(_) => None,
        }
    }

    /// Why the processors are not known.
    pub open spec fn cpus_error(&self) -> Seq<char> {
        match self.cpumask {
            Ok(mask) => "invalid CPU list "@ + text::debug_form(mask@),
            Err(error) => error@,
        }
    }

    /// How many counters are expected; at least one where that is not known.
    pub open spec fn targets(&self) -> nat {
        match self.cpus() {
            Some(cpus) => cpus.len(),
            None => 1,
        }
    }

    /// Whether the controller can be measured.
    pub open spec fn measurable(&self) -> bool {
        self.cpus() is Some && self.read_scale is Ok && self.write_scale is Ok
    }

    pub open spec fn issues(&self, before: Seq<Seq<char>>) -> Seq<Seq<char>> {
        if self.cpus() is None {
            perf::with_issue(
                before,
                "IMC PMU '"@ + self.name@ + "' CPU scope unavailable: "@ + self.cpus_error(),
            )
        } else {
            let read = match self.read_scale {
                Ok(_) => before,
                Err(error) => perf::with_issue(
                    before,
                    "IMC PMU '"@ + self.name@ + "/cas_count_read' unavailable: "@ + error@,
                ),
            };
            match self.write_scale {
                Ok(_) => read,
                Err(error) => perf::with_issue(
                    read,
                    "IMC PMU '"@ + self.name@ + "/cas_count_write' unavailable: "@ + error@,
                ),
            }
        }
    }
}

/// A controller that can be measured.
#[derive(Debug)]
pub struct ImcConfig {
    pub name: String,
    pub read_scale_bytes: DoubleBits,
    pub write_scale_bytes: DoubleBits,
    pub cpus: Vec<usize>,
}

impl ImcConfig {
    /// This is what was found out about a controller.
    pub open spec fn of(&self, device: ImcDevice) -> bool {
        &&& self.name@ == device.name@
        &&& device.read_scale == Ok::<DoubleBits, String>(self.read_scale_bytes)
        &&& device.write_scale == Ok::<DoubleBits, String>(self.write_scale_bytes)
        &&& device.cpus() == Some(self.cpus@)
    }
}

/// The controllers that can be measured, and how many counters would cover the system.
#[derive(Debug)]
pub struct MemoryBandwidthDiscovery {
    pub configs: Vec<ImcConfig>,
    pub expected_targets: usize,
    pub complete: bool,
}

/// The number of counters that cover the first controllers.
pub open spec fn targets_of(devices: Seq<ImcDevice>, count: int) -> nat
    decreases count,
{
    if count <= 0 {
        0
    } else {
        targets_of(devices, count - 1) + devices[count - 1].targets()
    }
}

/// The issues after looking at the first controllers.
pub open spec fn discovery_issues(
    devices: Seq<ImcDevice>,
    count: int,
    before: Seq<Seq<char>>,
) -> Seq<Seq<char>>
    decreases count,
{
    if count <= 0 {
        before
    } else {
        devices[count - 1].issues(discovery_issues(devices, count - 1, before))
    }
}

/// The controllers that can be measured.
pub open spec fn measurable_devices(devices: Seq<ImcDevice>) -> Seq<ImcDevice> {
    devices.filter(|d: ImcDevice| d.measurable())
}

/// The configurations are those of the given controllers.
pub open spec fn configs_of(configs: Seq<ImcConfig>, devices: Seq<ImcDevice>) -> bool {
    &&& configs.len() == devices.len()
    &&& forall|i: int| 0 <= i < configs.len() ==> (#[trigger] configs[i]).of(devices[i])
}

/// All controllers can be measured, and there is one.
pub open spec fn discovery_complete(devices: Seq<ImcDevice>) -> bool {
    &&& devices.len() > 0
    &&& forall|i: int| 0 <= i < devices.len() ==> (#[trigger] devices[i]).measurable()
}

/// A number, capped at the largest that can be held.
pub open spec fn capped(n: nat) -> usize {
    if n > usize::MAX {
        usize::MAX
    } else {
        n as usize
    }
}

fn device_cpus(device: &ImcDevice) -> (r: Result<Vec<usize>, String>)
    ensures
        r is Ok == device.cpus() is Some,
        r matches Ok(cpus) ==> cpus@ == device.cpus()->0,
        r matches Err(message) ==> message@ == device.cpus_error(),
{
    match &device.cpumask {
        Ok(mask) => parse::parse_cpu_list(mask.as_str()),
        Err(error) => Err(error.clone()),
    }
}

fn event_issue(name: &str, event: &str, error: &str) -> (r: String)
    ensures
        r@ == "IMC PMU '"@ + name@ + event@ + error@,
{
    let mut r = "IMC PMU '".to_owned();
    r.append(name);
    r.append(event);
    r.append(error);
    r
}

/// Takes in what was found out about the controllers.
#[verifier::loop_isolation(false)]
pub fn discover_memory_bandwidth(devices: &Vec<ImcDevice>, issues: &mut PerfIssues) -> (r:
    MemoryBandwidthDiscovery)
    ensures
        configs_of(r.configs@, measurable_devices(devices@)),
        r.expected_targets == capped(targets_of(devices@, devices@.len() as int)),
        r.complete == discovery_complete(devices@),
        final(issues).texts() == discovery_issues(
            devices@,
            devices@.len() as int,
            old(issues).texts(),
        ),
{
    let ghost before = issues.texts();
    let ghost pick = |d: ImcDevice| d.measurable();
    let mut configs: Vec<ImcConfig> = Vec::new();
    let mut expected: usize = 0;
    let mut complete = devices.len() > 0;
    let mut i: usize = 0;
    proof {
        reveal(Seq::filter);
        assert(measurable_devices(devices@.take(0)) =~= Seq::empty());
    }
    while i < devices.len()
        invariant
            i <= devices@.len(),
            configs_of(configs@, devices@.take(i as int).filter(pick)),
            expected == capped(targets_of(devices@, i as int)),
            complete == (devices@.len() > 0 && forall|j: int|
                0 <= j < i ==> (#[trigger] devices@[j]).measurable()),
            issues.texts() == discovery_issues(devices@, i as int, before),
        decreases devices@.len() - i,
    {
        let device = &devices[i];
        proof {
            reveal(Seq::filter);
            assert(devices@.take(i + 1).drop_last() =~= devices@.take(i as int));
            assert(devices@.take(i + 1).last() == devices@[i as int]);
        }
        match device_cpus(device) {
            Err(error) => {
                expected = expected.saturating_add(1);
                complete = false;
                issues.record_perf_issue(
                    event_issue(
                        device.name.as_str(),
                        "' CPU scope unavailable: ",
                        error.as_str(),
                    ),
                );
            },
            Ok(cpus) => {
                expected = expected.saturating_add(cpus.len());
                match (&device.read_scale, &device.write_scale) {
                    (Ok(read), Ok(write)) => {
                        configs.push(
                            ImcConfig {
                                name: device.name.clone(),
                                read_scale_bytes: *read,
                                write_scale_bytes: *write,
                                cpus,
                            },
                        );
                    },
                    (read, write) => {
                        complete = false;
                        if let Err(error) = read {
                            issues.record_perf_issue(
                                event_issue(
                                    device.name.as_str(),
                                    "/cas_count_read' unavailable: ",
                                    error.as_str(),
                                ),
                            );
                        }
                        if let Err(error) = write {
                            issues.record_perf_issue(
                                event_issue(
                                    device.name.as_str(),
                                    "/cas_count_write' unavailable: ",
                                    error.as_str(),
                                ),
                            );
                        }
                    },
                }
            },
        }
        i += 1;
    }
    assert(devices@.take(devices@.len() as int) =~= devices@);
    MemoryBandwidthDiscovery { configs, expected_targets: expected, complete }
}

/// A counter of a controller on one of its processors.
#[derive(Debug)]
pub struct ImcTarget {
    pub name: String,
    pub cpu: usize,
}

/// What is said of a counter: which, on which processor, and what happened.
pub open spec fn counter_issue(
    kind: Seq<char>,
    target: ImcTarget,
    what: Seq<char>,
    error: Seq<char>,
) -> Seq<char> {
    kind + " '"@ + target.name@ + "' on CPU "@ + text::decimal(target.cpu as nat) + what + error
}

pub fn describe_counter(kind: &str, target: &ImcTarget, what: &str, error: &str) -> (r: String)
    ensures
        r@ == counter_issue(kind@, *target, what@, error@),
{
    let mut r = kind.to_owned();
    r.append(" '");
    r.append(target.name.as_str());
    r.append("' on CPU ");
    r.append(text::decimal_text(target.cpu as u64).as_str());
    r.append(what);
    r.append(error);
    r
}

/// What came of opening, enabling or reading the two counters of a target.
pub type PairOutcome = (Option<String>, Option<String>);

/// The issues after opening a pair of counters.
pub open spec fn opening_issues(
    target: ImcTarget,
    outcome: PairOutcome,
    before: Seq<Seq<char>>,
) -> Seq<Seq<char>> {
    let read = match outcome.0 {
        Some(error) => perf::with_issue(
            before,
            counter_issue("IMC read counter"@, target, " unavailable: "@, error@),
        ),
        None => before,
    };
    match outcome.1 {
        Some(error) => perf::with_issue(
            read,
            counter_issue("IMC write counter"@, target, " unavailable: "@, error@),
        ),
        None => read,
    }
}

/// Takes in whether the two counters of a target could be opened.
pub fn note_opening(target: &ImcTarget, outcome: &PairOutcome, issues: &mut PerfIssues) -> (r: bool)
    ensures
        r == (outcome.0 is None && outcome.1 is None),
        final(issues).texts() == opening_issues(*target, *outcome, old(issues).texts()),
{
    if let Some(error) = &outcome.0 {
        issues.record_perf_issue(
            describe_counter("IMC read counter", target, " unavailable: ", error.as_str()),
        );
    }
    if let Some(error) = &outcome.1 {
        issues.record_perf_issue(
            describe_counter("IMC write counter", target, " unavailable: ", error.as_str()),
        );
    }
    outcome.0.is_none() && outcome.1.is_none()
}

/// What came of starting the two counters of a target.
#[derive(Debug)]
pub enum PairStart {
    Started,
    ResetFailed { error: String },
    ReadFailed { error: String },
    WriteFailed { error: String },
}

/// The issues after starting a pair of counters.
pub open spec fn starting_issues(
    target: ImcTarget,
    start: PairStart,
    before: Seq<Seq<char>>,
) -> Seq<Seq<char>> {
    match start {
        PairStart::Started => before,
        PairStart::ResetFailed { error } => perf::with_issue(
            before,
            counter_issue("IMC counter"@, target, " reset failed: "@, error@),
        ),
        PairStart::ReadFailed { error } => perf::with_issue(
            before,
            counter_issue("IMC read counter"@, target, " enable failed: "@, error@),
        ),
        PairStart::WriteFailed { error } => perf::with_issue(
            before,
            counter_issue("IMC write counter"@, target, " enable failed: "@, error@),
        ),
    }
}

/// Takes in whether the two counters of a target could be started; those that
/// could not are measured no further.
pub fn note_start(target: &ImcTarget, start: &PairStart, issues: &mut PerfIssues) -> (r: bool)
    ensures
        r == (start is Started),
        final(issues).texts() == starting_issues(*target, *start, old(issues).texts()),
{
    match start {
        PairStart::Started => true,
        PairStart::ResetFailed { error } => {
            issues.record_perf_issue(
                describe_counter("IMC counter", target, " reset failed: ", error.as_str()),
            );
            false
        },
        PairStart::ReadFailed { error } => {
            issues.record_perf_issue(
                describe_counter("IMC read counter", target, " enable failed: ", error.as_str()),
            );
            false
        },
        PairStart::WriteFailed { error } => {
            issues.record_perf_issue(
                describe_counter("IMC write counter", target, " enable failed: ", error.as_str()),
            );
            false
        },
    }
}

/// Whether the counters still cover the system: they did before, and none is missing.
pub fn still_complete(complete: bool, counters: usize, expected_targets: usize) -> (r: bool)
    ensures
        r == (complete && counters == expected_targets),
{
    complete && counters == expected_targets
}

/// A count with the times for which its counter was enabled and ran.
#[derive(Clone, Copy, Debug, PartialEq, Eq, Structural)]
pub struct Reading {
    pub count: u64,
    pub enabled_ns: u64,
    pub running_ns: u64,
}

impl Reading {
    pub open spec fn usable(self) -> bool {
        self.enabled_ns > 0 && self.running_ns > 0
    }

    pub open spec fn window(self) -> (u64, u64) {
        (self.enabled_ns, self.running_ns)
    }

    pub open spec fn scaled(self) -> u64 {
        perf::scaled(self.count, self.enabled_ns, self.running_ns)
    }

    fn is_usable(self) -> (r: bool)
        ensures
            r == self.usable(),
    {
        self.enabled_ns > 0 && self.running_ns > 0
    }
}

/// What came of reading the two counters of a target.
#[derive(Debug)]
pub struct PairRead {
    pub target: ImcTarget,
    pub read: Result<Reading, String>,
    pub write: Result<Reading, String>,
}

impl PairRead {
    /// Whether both counters counted.
    pub open spec fn usable(&self) -> bool {
        self.read is Ok && self.write is Ok && self.read->Ok_0.usable()
            && self.write->Ok_0.usable()
    }

    pub open spec fn issues(&self, before: Seq<Seq<char>>) -> Seq<Seq<char>> {
        match (self.read, self.write) {
            (Ok(_), Ok(_)) => if self.usable() {
                before
            } else {
                perf::with_issue(
                    before,
                    counter_issue(
                        "IMC counter pair"@,
                        self.target,
                        " has no usable scheduled window"@,
                        Seq::empty(),
                    ),
                )
            },
            (read, write) => {
                let first = match read {
                    Err(error) => perf::with_issue(
                        before,
                        counter_issue("IMC read counter"@, self.target, " read failed: "@, error@),
                    ),
                    Ok(_) => before,
                };
                match write {
                    Err(error) => perf::with_issue(
                        first,
                        counter_issue("IMC write counter"@, self.target, " read failed: "@, error@),
                    ),
                    Ok(_) => first,
                }
            },
        }
    }
}

/// The scaled counts of one target, and its place among those read.
#[derive(Clone, Copy, Debug, PartialEq, Eq, Structural)]
pub struct TargetCounts {
    pub index: usize,
    pub read: u64,
    pub write: u64,
}

/// What all targets together say of a sample. The bytes follow from the counts
/// and the scales of the events.
#[derive(Debug)]
pub struct CollectedTargets {
    pub counts: Vec<TargetCounts>,
    pub least_scheduled: Option<(u64, u64)>,
    pub scope: MemoryBandwidthScope,
}

/// The places of the usable targets among the first `count`.
pub open spec fn usable_places(pairs: Seq<PairRead>, count: int) -> Seq<int>
    decreases count,
{
    if count <= 0 || count > pairs.len() {
        Seq::empty()
    } else if pairs[count - 1].usable() {
        usable_places(pairs, count - 1).push(count - 1)
    } else {
        usable_places(pairs, count - 1)
    }
}

/// The windows of the usable counters among the first `count` targets.
pub open spec fn usable_windows(pairs: Seq<PairRead>, count: int) -> Seq<(u64, u64)>
    decreases count,
{
    if count <= 0 || count > pairs.len() {
        Seq::empty()
    } else if pairs[count - 1].usable() {
        usable_windows(pairs, count - 1).push(pairs[count - 1].read->Ok_0.window()).push(
            pairs[count - 1].write->Ok_0.window(),
        )
    } else {
        usable_windows(pairs, count - 1)
    }
}

/// The issues after reading the first targets.
pub open spec fn reading_issues(
    pairs: Seq<PairRead>,
    count: int,
    before: Seq<Seq<char>>,
) -> Seq<Seq<char>>
    decreases count,
{
    if count <= 0 {
        before
    } else {
        pairs[count - 1].issues(reading_issues(pairs, count - 1, before))
    }
}

/// These are the scaled counts at the given places.
pub open spec fn counts_of(counts: Seq<TargetCounts>, pairs: Seq<PairRead>, places: Seq<int>) -> bool {
    &&& counts.len() == places.len()
    &&& forall|i: int|
        0 <= i < counts.len() ==> {
            &&& (#[trigger] counts[i]).index == places[i]
            &&& counts[i].read == pairs[places[i]].read->Ok_0.scaled()
            &&& counts[i].write == pairs[places[i]].write->Ok_0.scaled()
        }
}

/// How much of the system the usable targets cover.
pub open spec fn scope_of(usable: nat, expected_targets: usize, complete: bool) -> MemoryBandwidthScope {
    if usable == 0 {
        MemoryBandwidthScope::SystemUnavailable
    } else if complete && usable == expected_targets {
        MemoryBandwidthScope::SystemComplete
    } else {
        MemoryBandwidthScope::SystemPartial
    }
}

fn note_reading(pair: &PairRead, issues: &mut PerfIssues)
    ensures
        final(issues).texts() == pair.issues(old(issues).texts()),
{
    match (&pair.read, &pair.write) {
        (Ok(read), Ok(write)) => {
            if !(read.is_usable() && write.is_usable()) {
                let none = String::new();
                issues.record_perf_issue(
                    describe_counter(
                        "IMC counter pair",
                        &pair.target,
                        " has no usable scheduled window",
                        none.as_str(),
                    ),
                );
            }
        },
        (read, write) => {
            if let Err(error) = read {
                issues.record_perf_issue(
                    describe_counter(
                        "IMC read counter",
                        &pair.target,
                        " read failed: ",
                        error.as_str(),
                    ),
                );
            }
            if let Err(error) = write {
                issues.record_perf_issue(
                    describe_counter(
                        "IMC write counter",
                        &pair.target,
                        " read failed: ",
                        error.as_str(),
                    ),
                );
            }
        },
    }
}

fn take_least(best: Option<(u64, u64)>, window: (u64, u64), Ghost(seen): Ghost<Seq<(u64, u64)>>) -> (r:
    Option<(u64, u64)>)
    requires
        best == perf::least_window(seen, seen.len() as int),
        window.0 > 0,
    ensures
        r == perf::least_window(seen.push(window), seen.len() as int + 1),
{
    proof {
        least_of_front(seen, window, seen.len() as int);
    }
    match best {
        None => Some(window),
        Some(current) => {
            if less_scheduled(window, current) {
                Some(window)
            } else {
                Some(current)
            }
        },
    }
}

proof fn least_of_front(seen: Seq<(u64, u64)>, window: (u64, u64), count: int)
    requires
        0 <= count <= seen.len(),
    ensures
        perf::least_window(seen.push(window), count) == perf::least_window(seen, count),
    decreases count,
{
    if count > 0 {
        least_of_front(seen, window, count - 1);
    }
}

/// Takes in what the counters of all targets say.
pub fn collect_memory_bandwidth(
    pairs: &Vec<PairRead>,
    expected_targets: usize,
    complete: bool,
    issues: &mut PerfIssues,
) -> (r: CollectedTargets)
    ensures
        counts_of(r.counts@, pairs@, usable_places(pairs@, pairs@.len() as int)),
        r.least_scheduled == perf::least_window(
            usable_windows(pairs@, pairs@.len() as int),
            usable_windows(pairs@, pairs@.len() as int).len() as int,
        ),
        r.scope == scope_of(
            usable_places(pairs@, pairs@.len() as int).len(),
            expected_targets,
            complete,
        ),
        final(issues).texts() == reading_issues(
            pairs@,
            pairs@.len() as int,
            old(issues).texts(),
        ),
{
    let ghost before = issues.texts();
    let mut counts: Vec<TargetCounts> = Vec::new();
    let mut least: Option<(u64, u64)> = None;
    let mut i: usize = 0;
    while i < pairs.len()
        invariant
            i <= pairs@.len(),
            counts_of(counts@, pairs@, usable_places(pairs@, i as int)),
            least == perf::least_window(
                usable_windows(pairs@, i as int),
                usable_windows(pairs@, i as int).len() as int,
            ),
            issues.texts() == reading_issues(pairs@, i as int, before),
        decreases pairs@.len() - i,
    {
        note_reading(&pairs[i], issues);
        let ghost seen = usable_windows(pairs@, i as int);
        if let (Ok(read), Ok(write)) = (&pairs[i].read, &pairs[i].write) {
            if read.is_usable() && write.is_usable() {
                let first = (read.enabled_ns, read.running_ns);
                let second = (write.enabled_ns, write.running_ns);
                least = take_least(least, first, Ghost(seen));
                least = take_least(least, second, Ghost(seen.push(first)));
                counts.push(
                    TargetCounts {
                        index: i,
                        read: scale_multiplexed_count(
                            read.count,
                            read.enabled_ns,
                            read.running_ns,
                        ),
                        write: scale_multiplexed_count(
                            write.count,
                            write.enabled_ns,
                            write.running_ns,
                        ),
                    },
                );
            }
        }
        i += 1;
    }
    let usable: usize = counts.len();
    let scope = if usable == 0 {
        MemoryBandwidthScope::SystemUnavailable
    } else if complete && usable == expected_targets {
        MemoryBandwidthScope::SystemComplete
    } else {
        MemoryBandwidthScope::SystemPartial
    };
    CollectedTargets { counts, least_scheduled: least, scope }
}

/// A sample whose counters do not all count never passes for a complete one.
pub proof fn unusable_targets_break_completeness(
    pairs: Seq<PairRead>,
    expected_targets: usize,
    complete: bool,
    i: int,
)
    requires
        pairs.len() <= expected_targets,
        0 <= i < pairs.len(),
        !pairs[i].usable(),
    ensures
        scope_of(usable_places(pairs, pairs.len() as int).len(), expected_targets, complete)
            != MemoryBandwidthScope::SystemComplete,
{
    few_usable(pairs, pairs.len() as int, i);
}

proof fn few_usable(pairs: Seq<PairRead>, count: int, i: int)
    requires
        0 <= count <= pairs.len(),
        0 <= i < pairs.len(),
        !pairs[i].usable(),
    ensures
        usable_places(pairs, count).len() <= count,
        i < count ==> usable_places(pairs, count).len() < count,
    decreases count,
{
    if count > 0 {
        few_usable(pairs, count - 1, i);
    }
}

/// A sample of the memory bandwidth of the system. The rates are over the
/// operations and the time of the sample.
#[derive(Clone, Copy, Debug)]
pub struct MemoryBandwidthSample {
    pub scheduled_percent: DoubleBits,
    pub least_running_ns: u64,
    pub coverage_percent: DoubleBits,
    pub scope: MemoryBandwidthScope,
    pub read_bytes_per_op: DoubleBits,
    pub write_bytes_per_op: DoubleBits,
    pub total_bytes_per_op: DoubleBits,
    pub read_gib_s: DoubleBits,
    pub write_gib_s: DoubleBits,
    pub total_gib_s: DoubleBits,
}

/// A metric of this section.
pub open spec fn bandwidth_metric(
    metric: MetricValue,
    name: Seq<char>,
    value: DoubleBits,
    unit: Seq<char>,
    display_name: Seq<char>,
) -> bool {
    &&& metric.name@ == name
    &&& metric.value == value
    &&& metric.unit@ == unit
    &&& metric.display_name@ == display_name
    &&& metric.section@ == METRIC_SECTION@
    &&& metric.format == MetricFormat::Number
}

fn metric_of(
    name: &'static str,
    value: DoubleBits,
    unit: &'static str,
    display_name: &'static str,
) -> (r: MetricValue)
    ensures
        bandwidth_metric(r, name@, value, unit@, display_name@),
{
    MetricValue::new(name, value, unit).with_display_name(display_name).with_section(METRIC_SECTION)
}

/// The number of metrics that a sample gives.
pub open spec fn metric_count(sample: MemoryBandwidthSample, operations: u64, elapsed: Nanos) -> nat {
    match sample.scope {
        MemoryBandwidthScope::SystemUnavailable => 0,
        MemoryBandwidthScope::SystemPartial => 2,
        MemoryBandwidthScope::SystemComplete => {
            let per_op: nat = if operations > 0 {
                3
            } else {
                0
            };
            let rates: nat = if elapsed.count > 0 {
                3
            } else {
                0
            };
            2 + per_op + rates
        },
    }
}

/// These are the metrics of a sample: its quality where anything was measured,
/// and bytes and rates only where the whole system was.
pub open spec fn sample_metrics(
    metrics: Seq<MetricValue>,
    sample: MemoryBandwidthSample,
    operations: u64,
    elapsed: Nanos,
) -> bool {
    let complete = sample.scope is SystemComplete;
    let rates: int = if operations > 0 {
        5
    } else {
        2
    };
    &&& metrics.len() == metric_count(sample, operations, elapsed)
    &&& !(sample.scope is SystemUnavailable) ==> {
        &&& bandwidth_metric(
            metrics[0],
            "dram_imc_coverage_percent"@,
            sample.coverage_percent,
            "%"@,
            "IMC target coverage"@,
        )
        &&& bandwidth_metric(
            metrics[1],
            "dram_pmu_scheduled_percent"@,
            sample.scheduled_percent,
            "%"@,
            "IMC PMU scheduled"@,
        )
    }
    &&& complete && operations > 0 ==> {
        &&& bandwidth_metric(
            metrics[2],
            "dram_read_bytes_per_op"@,
            sample.read_bytes_per_op,
            "B/op"@,
            "DRAM read bytes/op"@,
        )
        &&& bandwidth_metric(
            metrics[3],
            "dram_write_bytes_per_op"@,
            sample.write_bytes_per_op,
            "B/op"@,
            "DRAM write bytes/op"@,
        )
        &&& bandwidth_metric(
            metrics[4],
            "dram_total_bytes_per_op"@,
            sample.total_bytes_per_op,
            "B/op"@,
            "DRAM total bytes/op"@,
        )
    }
    &&& complete && elapsed.count > 0 ==> {
        &&& bandwidth_metric(
            metrics[rates],
            "dram_read_gib_s"@,
            sample.read_gib_s,
            "GiB/s"@,
            "DRAM read bandwidth"@,
        )
        &&& bandwidth_metric(
            metrics[rates + 1],
            "dram_write_gib_s"@,
            sample.write_gib_s,
            "GiB/s"@,
            "DRAM write bandwidth"@,
        )
        &&& bandwidth_metric(
            metrics[rates + 2],
            "dram_total_gib_s"@,
            sample.total_gib_s,
            "GiB/s"@,
            "DRAM total bandwidth"@,
        )
    }
}

/// Whether a complete sample rests on counters that ran too little.
pub open spec fn quality_is_low(sample: MemoryBandwidthSample) -> bool {
    &&& sample.scope is SystemComplete
    &&& (sample.scheduled_percent.below(DoubleBits { bits: MIN_RELIABLE_SCHEDULED_PERCENT })
        || sample.least_running_ns < MIN_RELIABLE_RUNNING_NS)
}

/// A sample that is not of the whole system reports what it covers, but no bytes
/// and no bandwidth.
pub proof fn partial_samples_claim_no_bandwidth(
    metrics: Seq<MetricValue>,
    sample: MemoryBandwidthSample,
    operations: u64,
    elapsed: Nanos,
    i: int,
)
    requires
        sample_metrics(metrics, sample, operations, elapsed),
        !(sample.scope is SystemComplete),
        0 <= i < metrics.len(),
    ensures
        metrics[i].name@ == "dram_imc_coverage_percent"@ || metrics[i].name@
            == "dram_pmu_scheduled_percent"@,
        metrics[i].unit@ == "%"@,
{
    assert(metrics.len() <= 2);
    if i == 0 {
        assert(metrics[0] == metrics[i]);
    } else {
        assert(metrics[1] == metrics[i]);
    }
}

/// The metrics of a sample, and whether its quality is low.
pub fn memory_bandwidth_metrics(sample: &MemoryBandwidthSample, operations: u64, elapsed: Nanos) -> (r:
    (Vec<MetricValue>, bool))
    ensures
        sample_metrics(r.0@, *sample, operations, elapsed),
        r.1 == quality_is_low(*sample),
{
    let mut metrics: Vec<MetricValue> = Vec::new();
    if let MemoryBandwidthScope::SystemUnavailable = sample.scope {
        return (metrics, false);
    }
    metrics.push(
        metric_of(
            "dram_imc_coverage_percent",
            sample.coverage_percent,
            "%",
            "IMC target coverage",
        ),
    );
    metrics.push(
        metric_of("dram_pmu_scheduled_percent", sample.scheduled_percent, "%", "IMC PMU scheduled"),
    );
    if let MemoryBandwidthScope::SystemPartial = sample.scope {
        return (metrics, false);
    }
    let low = sample.scheduled_percent.lt(DoubleBits::from_bits(MIN_RELIABLE_SCHEDULED_PERCENT))
        || sample.least_running_ns < MIN_RELIABLE_RUNNING_NS;
    if operations > 0 {
        metrics.push(
            metric_of(
                "dram_read_bytes_per_op",
                sample.read_bytes_per_op,
                "B/op",
                "DRAM read bytes/op",
            ),
        );
        metrics.push(
            metric_of(
                "dram_write_bytes_per_op",
                sample.write_bytes_per_op,
                "B/op",
                "DRAM write bytes/op",
            ),
        );
        metrics.push(
            metric_of(
                "dram_total_bytes_per_op",
                sample.total_bytes_per_op,
                "B/op",
                "DRAM total bytes/op",
            ),
        );
    }
    if !elapsed.is_zero() {
        metrics.push(
            metric_of("dram_read_gib_s", sample.read_gib_s, "GiB/s", "DRAM read bandwidth"),
        );
        metrics.push(
            metric_of("dram_write_gib_s", sample.write_gib_s, "GiB/s", "DRAM write bandwidth"),
        );
        metrics.push(
            metric_of("dram_total_gib_s", sample.total_gib_s, "GiB/s", "DRAM total bandwidth"),
        );
    }
    (metrics, low)
}

/// What is said where the counters of the memory controllers ran too little.
/// The least running time is given in milliseconds.
pub fn quality_warning(
    scheduled_percent: DoubleBits,
    least_running_ms: DoubleBits,
    numbers: &NumberTexts,
) -> (r: String)
    ensures
        r@ == "⚠️  Uncore memory bandwidth scheduling quality is low: "@ + numbers.spec_text(
            scheduled_percent,
            NumberStyle::Fixed { places: 1 },
        ) + "% scheduled, "@ + numbers.spec_text(least_running_ms, NumberStyle::Fixed { places: 1 })
            + " ms least-event running time; scaled bandwidth may be unreliable."@,
{
    let mut r = "⚠️  Uncore memory bandwidth scheduling quality is low: ".to_owned();
    r.append(numbers.text(scheduled_percent, NumberStyle::Fixed { places: 1 }).as_str());
    r.append("% scheduled, ");
    r.append(numbers.text(least_running_ms, NumberStyle::Fixed { places: 1 }).as_str());
    r.append(" ms least-event running time; scaled bandwidth may be unreliable.");
    r
}

/// What is said where only some memory controllers can be measured.
pub fn partial_warning() -> (r: &'static str)
    ensures
        r@
            == "⚠️  Uncore memory-controller coverage is partial; whole-system DRAM bandwidth metrics will be omitted."@,
{
    "⚠️  Uncore memory-controller coverage is partial; whole-system DRAM bandwidth metrics will be omitted."
}

/// The issues about memory controllers among the first `count`, at most two.
pub open spec fn controller_issues(issues: Seq<Seq<char>>, count: int) -> Seq<Seq<char>>
    decreases count,
{
    if count <= 0 || count > issues.len() {
        Seq::empty()
    } else {
        let front = controller_issues(issues, count - 1);
        if front.len() < 2 && text::occurs_at(issues[count - 1], "IMC "@, 0) {
            front.push(issues[count - 1])
        } else {
            front
        }
    }
}

/// What is said where no memory controller can be measured.
pub fn unavailable_warning(issues: &PerfIssues) -> (r: Vec<String>)
    ensures
        text::texts(r@) == seq![
            "⚠️  Uncore memory bandwidth counters unavailable; continuing without DRAM bandwidth metrics."@,
            "   This requires Linux uncore_imc_* PMUs with cas_count_read/cas_count_write and system-wide perf access."@,
        ] + controller_issues(issues.texts(), issues.texts().len() as int).map_values(
            |issue: Seq<char>| "   "@ + issue,
        ),
{
    let ghost all = issues.texts();
    let ghost indent = |issue: Seq<char>| "   "@ + issue;
    let ghost head = seq![
        "⚠️  Uncore memory bandwidth counters unavailable; continuing without DRAM bandwidth metrics."@,
        "   This requires Linux uncore_imc_* PMUs with cas_count_read/cas_count_write and system-wide perf access."@,
    ];
    let mut r: Vec<String> = Vec::new();
    r.push(
        "⚠️  Uncore memory bandwidth counters unavailable; continuing without DRAM bandwidth metrics.".to_owned(),
    );
    r.push(
        "   This requires Linux uncore_imc_* PMUs with cas_count_read/cas_count_write and system-wide perf access.".to_owned(),
    );
    assert(text::texts(r@) =~= head + controller_issues(all, 0).map_values(indent));
    let mut shown: usize = 0;
    let mut i: usize = 0;
    while i < issues.list.len()
        invariant
            i <= issues.list@.len(),
            all == issues.texts(),
            shown <= 2,
            shown == controller_issues(all, i as int).len(),
            text::texts(r@) == head + controller_issues(all, i as int).map_values(indent),
            indent == (|issue: Seq<char>| "   "@ + issue),
        decreases issues.list@.len() - i,
    {
        let ghost before = text::texts(r@);
        assert(all[i as int] == issues.list@[i as int]@);
        if shown < 2 && text::starts_with(issues.list[i].as_str(), "IMC ") {
            let mut line = "   ".to_owned();
            line.append(issues.list[i].as_str());
            r.push(line);
            shown += 1;
            assert(text::texts(r@) =~= before.push("   "@ + all[i as int]));
            assert(head + controller_issues(all, i + 1).map_values(indent) =~= before.push(
                "   "@ + all[i as int],
            ));
        }
        i += 1;
    }
    r
}

} // verus!
