//! Telling fast processor cores from slow ones.
use crate::parse;
use crate::text;
use vstd::prelude::*;

verus! {

/// Where the kernel describes processors.
pub const CPU_SYSFS_ROOT: &'static str = "/sys/devices/system/cpu";

/// The logical processors of the fast cores.
#[derive(Debug)]
pub struct PerformanceCoreSelection {
    pub logical_processor_ids: Vec<usize>,
}

/// Whether fast cores could be told from slow ones.
#[derive(Debug)]
pub enum DetectionResult {
    PerformanceCores(PerformanceCoreSelection),
    NoSelection,
}

/// What is known of a logical processor. A number is missing where it could
/// not be read.
#[derive(Clone, Copy, Debug, PartialEq, Eq, Structural)]
pub struct LogicalProcessor {
    pub id: usize,
    pub package_id: Option<u32>,
    pub core_id: Option<u32>,
    pub capacity: Option<u32>,
    pub max_freq_khz: Option<u32>,
}

impl LogicalProcessor {
    /// The package and the core that the processor belongs to: package zero and
    /// a core of its own where they are not known.
    pub open spec fn key(self) -> (nat, nat) {
        (
            match self.package_id {
                Some(id) => id as nat,
                None => 0,
            },
            match self.core_id {
                Some(id) => id as nat,
                None => self.id as nat,
            },
        )
    }

    fn package_number(self) -> (r: u64)
        ensures
            r == self.key().0,
    {
        match self.package_id {
            Some(id) => id as u64,
            None => 0,
        }
    }

    fn core_number(self) -> (r: u64)
        ensures
            r == self.key().1,
    {
        match self.core_id {
            Some(id) => id as u64,
            None => self.id as u64,
        }
    }
}

/// What is known of a physical core.
#[derive(Debug)]
pub struct PhysicalCoreMetrics {
    pub logical_processor_ids: Vec<usize>,
    pub capacity: Option<u32>,
    pub max_freq_khz: Option<u32>,
}

/// The larger of two numbers, where there are two.
pub open spec fn larger(a: Option<u32>, b: Option<u32>) -> Option<u32> {
    match (a, b) {
        (Some(x), Some(y)) => Some(
            if x < y {
                y
            } else {
                x
            },
        ),
        (Some(x), None) => Some(x),
        (None, other) => other,
    }
}

fn larger_of(a: Option<u32>, b: Option<u32>) -> (r: Option<u32>)
    ensures
        r == larger(a, b),
{
    match (a, b) {
        (Some(x), Some(y)) => Some(
            if x < y {
                y
            } else {
                x
            },
        ),
        (Some(x), None) => Some(x),
        (None, other) => other,
    }
}

/// The processors of one core, in the order in which they come.
pub open spec fn ids_of(list: Seq<LogicalProcessor>, key: (nat, nat)) -> Seq<usize>
    decreases list.len(),
{
    if list.len() == 0 {
        Seq::empty()
    } else if list.last().key() == key {
        ids_of(list.drop_last(), key).push(list.last().id)
    } else {
        ids_of(list.drop_last(), key)
    }
}

/// The largest capacity among the processors of one core.
pub open spec fn capacity_of(list: Seq<LogicalProcessor>, key: (nat, nat)) -> Option<u32>
    decreases list.len(),
{
    if list.len() == 0 {
        None
    } else if list.last().key() == key {
        larger(capacity_of(list.drop_last(), key), list.last().capacity)
    } else {
        capacity_of(list.drop_last(), key)
    }
}

/// The largest frequency among the processors of one core.
pub open spec fn frequency_of(list: Seq<LogicalProcessor>, key: (nat, nat)) -> Option<u32>
    decreases list.len(),
{
    if list.len() == 0 {
        None
    } else if list.last().key() == key {
        larger(frequency_of(list.drop_last(), key), list.last().max_freq_khz)
    } else {
        frequency_of(list.drop_last(), key)
    }
}

/// The cores that processors belong to, each once, in the order in which they
/// first come.
pub open spec fn core_keys(list: Seq<LogicalProcessor>) -> Seq<(nat, nat)>
    decreases list.len(),
{
    if list.len() == 0 {
        Seq::empty()
    } else {
        let front = core_keys(list.drop_last());
        if front.contains(list.last().key()) {
            front
        } else {
            front.push(list.last().key())
        }
    }
}

impl PhysicalCoreMetrics {
    /// This is what is known of a core.
    pub open spec fn describes(&self, list: Seq<LogicalProcessor>, key: (nat, nat)) -> bool {
        &&& self.logical_processor_ids@ == ids_of(list, key)
        &&& self.capacity == capacity_of(list, key)
        &&& self.max_freq_khz == frequency_of(list, key)
    }
}

/// These are the cores that processors belong to.
pub open spec fn cores_of(cores: Seq<PhysicalCoreMetrics>, list: Seq<LogicalProcessor>) -> bool {
    &&& cores.len() == core_keys(list).len()
    &&& forall|i: int|
        0 <= i < cores.len() ==> (#[trigger] cores[i]).describes(list, core_keys(list)[i])
}

fn absorb(core: PhysicalCoreMetrics, processor: LogicalProcessor) -> (r: PhysicalCoreMetrics)
    ensures
        r.logical_processor_ids@ == core.logical_processor_ids@.push(processor.id),
        r.capacity == larger(core.capacity, processor.capacity),
        r.max_freq_khz == larger(core.max_freq_khz, processor.max_freq_khz),
{
    let mut ids = core.logical_processor_ids;
    ids.push(processor.id);
    PhysicalCoreMetrics {
        logical_processor_ids: ids,
        capacity: larger_of(core.capacity, processor.capacity),
        max_freq_khz: larger_of(core.max_freq_khz, processor.max_freq_khz),
    }
}

proof fn absent_key_has_nothing(list: Seq<LogicalProcessor>, key: (nat, nat))
    requires
        !core_keys(list).contains(key),
    ensures
        ids_of(list, key).len() == 0,
        capacity_of(list, key) is None,
        frequency_of(list, key) is None,
    decreases list.len(),
{
    if list.len() > 0 {
        let front = core_keys(list.drop_last());
        if front.contains(key) {
            let k = front.index_of(key);
            assert(core_keys(list)[k] == key);
        }
        if list.last().key() == key {
            if !front.contains(key) {
                assert(core_keys(list)[front.len() as int] == key);
            }
        }
        absent_key_has_nothing(list.drop_last(), key);
    }
}

proof fn keys_are_distinct(list: Seq<LogicalProcessor>)
    ensures
        core_keys(list).no_duplicates(),
    decreases list.len(),
{
    if list.len() > 0 {
        keys_are_distinct(list.drop_last());
    }
}

/// Groups logical processors by the core that they belong to.
pub fn physical_cores(list: &Vec<LogicalProcessor>) -> (r: Vec<PhysicalCoreMetrics>)
    ensures
        cores_of(r@, list@),
{
    let mut cores: Vec<PhysicalCoreMetrics> = Vec::new();
    let mut keys: Vec<(u64, u64)> = Vec::new();
    let mut i: usize = 0;
    assert(list@.take(0) =~= Seq::empty());
    while i < list.len()
        invariant
            i <= list@.len(),
            cores_of(cores@, list@.take(i as int)),
            keys@.len() == cores@.len(),
            forall|j: int|
                0 <= j < keys@.len() ==> ((#[trigger] keys@[j]).0 as nat, keys@[j].1 as nat)
                    == core_keys(list@.take(i as int))[j],
        decreases list@.len() - i,
    {
        let processor = list[i];
        let ghost before = list@.take(i as int);
        let ghost after = list@.take(i + 1);
        let ghost old_keys = core_keys(before);
        let ghost old_cores = cores@;
        proof {
            assert(after.drop_last() =~= before);
            assert(after.last() == processor);
            keys_are_distinct(before);
        }
        let package: u64 = processor.package_number();
        let core: u64 = processor.core_number();
        let mut at: usize = 0;
        while at < keys.len() && !(keys[at].0 == package && keys[at].1 == core)
            invariant
                at <= keys@.len(),
                keys@.len() == old_keys.len(),
                (package as nat, core as nat) == processor.key(),
                forall|j: int|
                    0 <= j < keys@.len() ==> ((#[trigger] keys@[j]).0 as nat, keys@[j].1 as nat)
                        == old_keys[j],
                forall|j: int| 0 <= j < at ==> #[trigger] old_keys[j] != processor.key(),
            decreases keys@.len() - at,
        {
            assert(old_keys[at as int] == (keys@[at as int].0 as nat, keys@[at as int].1 as nat));
            at += 1;
        }
        if at < keys.len() {
            assert(old_keys[at as int] == processor.key());
            let core = cores.remove(at);
            cores.insert(at, absorb(core, processor));
            proof {
                assert(core_keys(after) == old_keys);
                assert(cores@ =~= old_cores.update(at as int, cores@[at as int]));
                assert forall|j: int| 0 <= j < cores@.len() implies (
                #[trigger] cores@[j]).describes(after, core_keys(after)[j]) by {
                    assert(old_cores[j].describes(before, old_keys[j]));
                }
            }
        } else {
            proof {
                if old_keys.contains(processor.key()) {
                    let k = old_keys.index_of(processor.key());
                    assert(old_keys[k] != processor.key());
                }
                absent_key_has_nothing(before, processor.key());
            }
            let empty = PhysicalCoreMetrics {
                logical_processor_ids: Vec::new(),
                capacity: None,
                max_freq_khz: None,
            };
            assert(ids_of(before, processor.key()) =~= Seq::empty());
            cores.push(absorb(empty, processor));
            keys.push((package, core));
            proof {
                assert(core_keys(after) == old_keys.push(processor.key()));
                assert forall|j: int| 0 <= j < cores@.len() implies (
                #[trigger] cores@[j]).describes(after, core_keys(after)[j]) by {
                    if j < old_cores.len() {
                        assert(old_cores[j].describes(before, old_keys[j]));
                        assert(old_keys[j] != processor.key());
                    }
                }
            }
        }
        i += 1;
    }
    assert(list@.take(list@.len() as int) =~= list@);
    cores
}

/// The processors come one after the other, each once.
pub open spec fn processors_increase(list: Seq<LogicalProcessor>) -> bool {
    forall|i: int, j: int| 0 <= i < j < list.len() ==> #[trigger] list[i].id < #[trigger] list[j].id
}

/// The numbers come one after the other, each once.
pub open spec fn increasing(ids: Seq<usize>) -> bool {
    forall|i: int, j: int| 0 <= i < j < ids.len() ==> #[trigger] ids[i] < #[trigger] ids[j]
}

/// Whether a processor of a core has an identifier.
spec fn core_has(list: Seq<LogicalProcessor>, key: (nat, nat), id: usize) -> bool {
    exists|j: int| 0 <= j < list.len() && (#[trigger] list[j]).key() == key && list[j].id == id
}

proof fn ids_belong(list: Seq<LogicalProcessor>, key: (nat, nat))
    requires
        processors_increase(list),
    ensures
        increasing(ids_of(list, key)),
        forall|i: int|
            0 <= i < ids_of(list, key).len() ==> core_has(
                list,
                key,
                #[trigger] ids_of(list, key)[i],
            ),
    decreases list.len(),
{
    if list.len() > 0 {
        let front = list.drop_last();
        assert(processors_increase(front)) by {
            assert forall|i: int, j: int| 0 <= i < j < front.len() implies #[trigger] front[i].id
                < #[trigger] front[j].id by {
                assert(list[i].id < list[j].id);
            }
        }
        ids_belong(front, key);
        let r = ids_of(list, key);
        let f = ids_of(front, key);
        assert forall|i: int| 0 <= i < r.len() implies core_has(list, key, #[trigger] r[i]) by {
            if i < f.len() {
                assert(r[i] == f[i]);
                let j = choose|j: int|
                    0 <= j < front.len() && (#[trigger] front[j]).key() == key && front[j].id
                        == f[i];
                assert(list[j].key() == key && list[j].id == r[i]);
            } else {
                assert(list[list.len() - 1].key() == key);
            }
        }
        assert forall|i: int, j: int| 0 <= i < j < r.len() implies #[trigger] r[i]
            < #[trigger] r[j] by {
            if j < f.len() {
                assert(f[i] < f[j]);
            } else {
                assert(r[i] == f[i]);
                let k = choose|k: int|
                    0 <= k < front.len() && (#[trigger] front[k]).key() == key && front[k].id
                        == f[i];
                assert(list[k].id < list[list.len() - 1].id);
            }
        }
    }
}

/// Where the processors come in order, so do those of each core.
pub proof fn cores_list_processors_in_order(list: Seq<LogicalProcessor>, key: (nat, nat))
    requires
        processors_increase(list),
    ensures
        increasing(ids_of(list, key)),
{
    ids_belong(list, key);
}

/// The number by which cores are compared.
#[derive(Clone, Copy, Debug, PartialEq, Eq, Structural)]
pub enum CoreMetric {
    Capacity,
    MaxFrequency,
}

impl CoreMetric {
    pub open spec fn of(self, core: PhysicalCoreMetrics) -> Option<u32> {
        match self {
            CoreMetric::Capacity => core.capacity,
            CoreMetric::MaxFrequency => core.max_freq_khz,
        }
    }

    fn read(self, core: &PhysicalCoreMetrics) -> (r: Option<u32>)
        ensures
            r == self.of(*core),
    {
        match self {
            CoreMetric::Capacity => core.capacity,
            CoreMetric::MaxFrequency => core.max_freq_khz,
        }
    }
}

/// The largest number among the first cores, where any has one.
pub open spec fn largest(cores: Seq<PhysicalCoreMetrics>, metric: CoreMetric, count: int) -> Option<u32>
    decreases count,
{
    if count <= 0 || count > cores.len() {
        None
    } else {
        larger(largest(cores, metric, count - 1), metric.of(cores[count - 1]))
    }
}

/// The smaller of two numbers, where there are two.
pub open spec fn smaller(a: Option<u32>, b: Option<u32>) -> Option<u32> {
    match (a, b) {
        (Some(x), Some(y)) => Some(
            if x < y {
                x
            } else {
                y
            },
        ),
        (Some(x), None) => Some(x),
        (None, other) => other,
    }
}

/// The smallest number among the first cores, where any has one.
pub open spec fn smallest(cores: Seq<PhysicalCoreMetrics>, metric: CoreMetric, count: int) -> Option<u32>
    decreases count,
{
    if count <= 0 || count > cores.len() {
        None
    } else {
        smaller(smallest(cores, metric, count - 1), metric.of(cores[count - 1]))
    }
}

/// Whether the smallest number is at least a tenth of the largest below it.
pub open spec fn heterogeneous(min: u32, max: u32) -> bool {
    min < max && 10 * (max - min) >= max
}

/// Nine tenths of the largest number, rounded to the nearest whole number.
pub open spec fn threshold(max: u32) -> int {
    (9 * max + 5) / 10
}

/// The cores that reach a threshold, by their places among the first `count`.
pub open spec fn fast_places(
    cores: Seq<PhysicalCoreMetrics>,
    metric: CoreMetric,
    limit: int,
    count: int,
) -> Seq<int>
    decreases count,
{
    if count <= 0 || count > cores.len() {
        Seq::empty()
    } else {
        let front = fast_places(cores, metric, limit, count - 1);
        match metric.of(cores[count - 1]) {
            Some(value) => if value >= limit {
                front.push(count - 1)
            } else {
                front
            },
            None => front,
        }
    }
}

/// Whether a logical processor belongs to one of the first fast cores.
pub open spec fn on_fast_core(cores: Seq<PhysicalCoreMetrics>, places: Seq<int>, id: usize) -> bool {
    exists|i: int|
        0 <= i < places.len() && (
        #[trigger] cores[places[i]]).logical_processor_ids@.contains(id)
}

/// Whether cores can be told apart by a number: they differ enough, and some
/// but not all reach the threshold.
pub open spec fn selectable(cores: Seq<PhysicalCoreMetrics>, metric: CoreMetric) -> bool {
    let n = cores.len() as int;
    match (smallest(cores, metric, n), largest(cores, metric, n)) {
        (Some(min), Some(max)) => {
            let places = fast_places(cores, metric, threshold(max), n);
            &&& heterogeneous(min, max)
            &&& places.len() != n
            &&& exists|id: usize| on_fast_core(cores, places, id)
        },
        _ => false,
    }
}

/// These are the logical processors of the fast cores, in order and each once.
pub open spec fn selected(ids: Seq<usize>, cores: Seq<PhysicalCoreMetrics>, metric: CoreMetric) -> bool {
    let n = cores.len() as int;
    let places = fast_places(cores, metric, threshold(largest(cores, metric, n)->0), n);
    &&& increasing(ids)
    &&& forall|id: usize| #[trigger] ids.contains(id) == on_fast_core(cores, places, id)
}

/// Puts a number into a list of numbers in order, unless it is there.
fn insert_id(ids: Vec<usize>, id: usize) -> (r: Vec<usize>)
    requires
        increasing(ids@),
    ensures
        increasing(r@),
        forall|x: usize| #[trigger] r@.contains(x) == (x == id || ids@.contains(x)),
{
    let ghost before = ids@;
    let mut ids = ids;
    let mut at: usize = 0;
    while at < ids.len() && ids[at] < id
        invariant
            at <= ids@.len(),
            ids@ == before,
            forall|j: int| 0 <= j < at ==> #[trigger] before[j] < id,
        decreases ids@.len() - at,
    {
        at += 1;
    }
    if at < ids.len() && ids[at] == id {
        assert(before[at as int] == id);
        return ids;
    }
    ids.insert(at, id);
    proof {
        let after = ids@;
        assert(after =~= before.insert(at as int, id));
        assert forall|i: int, j: int| 0 <= i < j < after.len() implies #[trigger] after[i]
            < #[trigger] after[j] by {
            if i == at && j > at + 1 {
                assert(before[at as int] < before[j - 1]);
            }
        }
        assert forall|x: usize| #[trigger] after.contains(x) == (x == id || before.contains(x)) by {
            assert(after[at as int] == id);
            if before.contains(x) {
                let k = before.index_of(x);
                if k < at {
                    assert(after[k] == x);
                } else {
                    assert(after[k + 1] == x);
                }
            }
            if after.contains(x) && x != id {
                let k = after.index_of(x);
                if k < at {
                    assert(before[k] == x);
                } else {
                    assert(before[k - 1] == x);
                }
            }
        }
    }
    ids
}

/// Adds numbers to a list in order.
fn insert_ids(ids: Vec<usize>, more: &Vec<usize>) -> (r: Vec<usize>)
    requires
        increasing(ids@),
    ensures
        increasing(r@),
        forall|x: usize| #[trigger] r@.contains(x) == (ids@.contains(x) || more@.contains(x)),
{
    let ghost before = ids@;
    let mut r = ids;
    let mut i: usize = 0;
    assert(more@.take(0) =~= Seq::empty());
    while i < more.len()
        invariant
            i <= more@.len(),
            increasing(r@),
            forall|x: usize| #[trigger]
                r@.contains(x) == (before.contains(x) || more@.take(i as int).contains(x)),
        decreases more@.len() - i,
    {
        let ghost old_r = r@;
        r = insert_id(r, more[i]);
        proof {
            let seen = more@.take(i + 1);
            assert(seen =~= more@.take(i as int).push(more@[i as int]));
            assert forall|x: usize| #[trigger]
                r@.contains(x) == (before.contains(x) || seen.contains(x)) by {
                assert(old_r.contains(x) == (before.contains(x) || more@.take(i as int).contains(
                    x,
                )));
                assert(seen[i as int] == more@[i as int]);
                if more@.take(i as int).contains(x) {
                    let k = more@.take(i as int).index_of(x);
                    assert(seen[k] == x);
                }
                if seen.contains(x) && x != more@[i as int] {
                    let k = seen.index_of(x);
                    assert(more@.take(i as int)[k] == x);
                }
            }
        }
        i += 1;
    }
    assert(more@.take(more@.len() as int) =~= more@);
    r
}

fn extremes(cores: &Vec<PhysicalCoreMetrics>, metric: CoreMetric) -> (r: (Option<u32>, Option<u32>))
    ensures
        r.0 == smallest(cores@, metric, cores@.len() as int),
        r.1 == largest(cores@, metric, cores@.len() as int),
        r.0 is Some == r.1 is Some,
        r.0 is Some ==> r.0->0 <= r.1->0,
{
    let mut min: Option<u32> = None;
    let mut max: Option<u32> = None;
    let mut i: usize = 0;
    while i < cores.len()
        invariant
            i <= cores@.len(),
            min == smallest(cores@, metric, i as int),
            max == largest(cores@, metric, i as int),
            min is Some == max is Some,
            min is Some ==> min->0 <= max->0,
        decreases cores@.len() - i,
    {
        let value = metric.read(&cores[i]);
        min = match (min, value) {
            (Some(x), Some(y)) => Some(
                if x < y {
                    x
                } else {
                    y
                },
            ),
            (Some(x), None) => Some(x),
            (None, other) => other,
        };
        max = larger_of(max, value);
        i += 1;
    }
    (min, max)
}

/// The logical processors of the cores that are fast by a number, where cores
/// can be told apart by it.
#[verifier::loop_isolation(false)]
pub fn select_performance_cores_by_metric(cores: &Vec<PhysicalCoreMetrics>, metric: CoreMetric) -> (r:
    Option<PerformanceCoreSelection>)
    ensures
        r is Some == selectable(cores@, metric),
        r matches Some(selection) ==> selected(
            selection.logical_processor_ids@,
            cores@,
            metric,
        ),
{
    let (min, max) = extremes(cores, metric);
    let (min, max) = match (min, max) {
        (Some(min), Some(max)) => (min, max),
        _ => {
            return None;
        },
    };
    if min == max || 10 * ((max - min) as u64) < max as u64 {
        return None;
    }
    let limit: u64 = (9 * (max as u64) + 5) / 10;
    let ghost n = cores@.len() as int;
    let mut ids: Vec<usize> = Vec::new();
    let mut selected_cores: usize = 0;
    let mut i: usize = 0;
    while i < cores.len()
        invariant
            i <= cores@.len(),
            selected_cores == fast_places(cores@, metric, limit as int, i as int).len(),
            selected_cores <= i,
            increasing(ids@),
            forall|id: usize| #[trigger]
                ids@.contains(id) == on_fast_core(
                    cores@,
                    fast_places(cores@, metric, limit as int, i as int),
                    id,
                ),
        decreases cores@.len() - i,
    {
        let ghost front = fast_places(cores@, metric, limit as int, i as int);
        let ghost old_ids = ids@;
        match metric.read(&cores[i]) {
            Some(value) => {
                if value as u64 >= limit {
                    selected_cores += 1;
                    ids = insert_ids(ids, &cores[i].logical_processor_ids);
                    proof {
                        let places = front.push(i as int);
                        assert(places == fast_places(cores@, metric, limit as int, i + 1));
                        assert forall|id: usize| #[trigger]
                            ids@.contains(id) == on_fast_core(cores@, places, id) by {
                            assert(old_ids.contains(id) == on_fast_core(cores@, front, id));
                            if on_fast_core(cores@, front, id) {
                                let k = choose|k: int|
                                    0 <= k < front.len() && (
                                    #[trigger] cores@[front[k]]).logical_processor_ids@.contains(
                                        id,
                                    );
                                assert(cores@[places[k]].logical_processor_ids@.contains(id));
                            }
                            if cores@[i as int].logical_processor_ids@.contains(id) {
                                assert(cores@[places[front.len() as int]].logical_processor_ids@.contains(
                                    id,
                                ));
                            }
                            if on_fast_core(cores@, places, id) {
                                let k = choose|k: int|
                                    0 <= k < places.len() && (
                                    #[trigger] cores@[places[k]]).logical_processor_ids@.contains(
                                        id,
                                    );
                                if k < front.len() {
                                    assert(cores@[front[k]].logical_processor_ids@.contains(id));
                                }
                            }
                        }
                    }
                }
            },
            None => {},
        }
        i += 1;
    }
    if ids.len() == 0 || selected_cores == cores.len() {
        proof {
            let places = fast_places(cores@, metric, limit as int, n);
            if ids@.len() == 0 {
                assert forall|id: usize| !on_fast_core(cores@, places, id) by {
                    assert(!ids@.contains(id));
                }
            }
        }
        return None;
    }
    proof {
        assert(ids@.contains(ids@[0]));
    }
    Some(PerformanceCoreSelection { logical_processor_ids: ids })
}

/// What is detected: the cores are told apart by their capacity if that can be
/// done, else by their frequency if that can be done.
pub open spec fn detection(result: DetectionResult, cores: Seq<PhysicalCoreMetrics>) -> bool {
    if selectable(cores, CoreMetric::Capacity) {
        result matches DetectionResult::PerformanceCores(selection) && selected(
            selection.logical_processor_ids@,
            cores,
            CoreMetric::Capacity,
        )
    } else if selectable(cores, CoreMetric::MaxFrequency) {
        result matches DetectionResult::PerformanceCores(selection) && selected(
            selection.logical_processor_ids@,
            cores,
            CoreMetric::MaxFrequency,
        )
    } else {
        result is NoSelection
    }
}

/// Tells fast cores from slow ones, by what is known of them.
pub fn detect_performance_cores(cores: &Vec<PhysicalCoreMetrics>) -> (r: DetectionResult)
    ensures
        detection(r, cores@),
{
    match select_performance_cores_by_metric(cores, CoreMetric::Capacity) {
        Some(selection) => DetectionResult::PerformanceCores(selection),
        None => match select_performance_cores_by_metric(cores, CoreMetric::MaxFrequency) {
            Some(selection) => DetectionResult::PerformanceCores(selection),
            None => DetectionResult::NoSelection,
        },
    }
}

proof fn one_value(cores: Seq<PhysicalCoreMetrics>, metric: CoreMetric, count: int)
    requires
        0 <= count <= cores.len(),
        forall|i: int| 0 <= i < count ==> metric.of(#[trigger] cores[i]) == metric.of(cores[0]),
    ensures
        count > 0 ==> largest(cores, metric, count) == metric.of(cores[0]),
        count > 0 ==> smallest(cores, metric, count) == metric.of(cores[0]),
    decreases count,
{
    if count > 0 {
        one_value(cores, metric, count - 1);
    }
}

/// Cores that are all alike are not told apart.
pub proof fn equal_cores_are_not_selected(result: DetectionResult, cores: Seq<PhysicalCoreMetrics>)
    requires
        detection(result, cores),
        forall|i: int| 0 <= i < cores.len() ==> (#[trigger] cores[i]).capacity == cores[0].capacity,
        forall|i: int|
            0 <= i < cores.len() ==> (#[trigger] cores[i]).max_freq_khz == cores[0].max_freq_khz,
    ensures
        result is NoSelection,
{
    one_value(cores, CoreMetric::Capacity, cores.len() as int);
    one_value(cores, CoreMetric::MaxFrequency, cores.len() as int);
}

/// The logical processor that the name of a directory such as `cpu3` stands for.
pub open spec fn processor_of(name: Seq<char>) -> Option<nat> {
    if text::occurs_at(name, "cpu"@, 0) {
        parse::unsigned_within(name.skip(3), usize::MAX as nat)
    } else {
        None
    }
}

pub fn logical_processor_id(name: &str) -> (r: Option<usize>)
    ensures
        r is Some == processor_of(name@) is Some,
        r matches Some(id) ==> id == processor_of(name@)->0,
{
    if !text::starts_with(name, "cpu") {
        return None;
    }
    proof {
        reveal_strlit("cpu");
    }
    let chars = text::chars_of(name);
    let mut rest: Vec<char> = Vec::new();
    let mut i: usize = 3;
    while i < chars.len()
        invariant
            3 <= i <= chars@.len(),
            rest@ == chars@.subrange(3, i as int),
        decreases chars@.len() - i,
    {
        rest.push(chars[i]);
        i += 1;
        assert(rest@ =~= chars@.subrange(3, i as int));
    }
    assert(rest@ =~= name@.skip(3));
    match parse::parse_unsigned(&rest, usize::MAX as u64) {
        Some(id) => Some(id as usize),
        None => None,
    }
}

/// Where the kernel describes a logical processor.
pub fn cpu_path(logical_processor_id: usize) -> (r: String)
    ensures
        r@ == CPU_SYSFS_ROOT@ + "/cpu"@ + text::decimal(logical_processor_id as nat),
{
    let mut r = CPU_SYSFS_ROOT.to_owned();
    r.append("/cpu");
    r.append(text::decimal_text(logical_processor_id as u64).as_str());
    r
}

} // verus!
