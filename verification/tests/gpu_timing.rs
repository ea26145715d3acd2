use kestrel_engine::gpu_baseline::{
    compare_baselines, BaselineError, BaselinePassStatus, GpuBaselineSnapshot, GpuPassSnapshot,
    GpuPassTiming, GpuTimingAccumulator, PassSamples,
};
use kestrel_engine::profiler::SystemProfiler;
use kestrel_engine::scalar::Scalar;
use kestrel_engine::text_map::TextMap;
use kestrel_engine::text_order::{comes_before, sort_by_label};

/// A number as the engine computes with it.
#[derive(Clone, Copy, Debug, PartialEq)]
struct Num(f32);

impl Scalar for Num {
    fn zero() -> Self {
        Num(0.0)
    }
    fn one() -> Self {
        Num(1.0)
    }
    fn clip_epsilon() -> Self {
        Num(1e-5)
    }
    fn machine_epsilon() -> Self {
        Num(f32::EPSILON)
    }
    fn from_count(count: usize) -> Self {
        Num(count as f32)
    }
    fn plus(self, rhs: Self) -> Self {
        Num(self.0 + rhs.0)
    }
    fn minus(self, rhs: Self) -> Self {
        Num(self.0 - rhs.0)
    }
    fn times(self, rhs: Self) -> Self {
        Num(self.0 * rhs.0)
    }
    fn over(self, rhs: Self) -> Self {
        Num(self.0 / rhs.0)
    }
    fn negated(self) -> Self {
        Num(-self.0)
    }
    fn rem_euclid_by(self, rhs: Self) -> Self {
        Num(self.0.rem_euclid(rhs.0))
    }
    fn floored(self) -> Self {
        Num(self.0.floor())
    }
    fn floor_count(self) -> u64 {
        self.0.floor() as u64
    }
    fn floor_steps(self) -> i32 {
        self.0.floor() as i32
    }
    fn ceil_steps(self) -> i32 {
        self.0.ceil() as i32
    }
    fn from_steps(steps: i32) -> Self {
        Num(steps as f32)
    }
    fn to_fixed(self) -> u32 {
        (self.0 * 65536.0).round() as u32
    }
    fn from_fixed(value: u32) -> Self {
        Num(value as f32 / 65536.0)
    }
    fn lt(self, rhs: Self) -> bool {
        self.0 < rhs.0
    }
    fn le(self, rhs: Self) -> bool {
        self.0 <= rhs.0
    }
    fn same(self, rhs: Self) -> bool {
        self.0 == rhs.0
    }
    fn finite(self) -> bool {
        self.0.is_finite()
    }
    fn nan(self) -> bool {
        self.0.is_nan()
    }
    fn larger(self, rhs: Self) -> Self {
        Num(self.0.max(rhs.0))
    }
    fn smaller(self, rhs: Self) -> Self {
        Num(self.0.min(rhs.0))
    }
    fn magnitude(self) -> Self {
        Num(self.0.abs())
    }
    fn rounded(self) -> Self {
        Num(self.0.round())
    }
    fn sign(self) -> Self {
        Num(self.0.signum())
    }
    fn root(self) -> Self {
        Num(self.0.sqrt())
    }
    fn topmost() -> Self {
        Num(f32::INFINITY)
    }
    fn zero_spec() -> Self {
        Self::zero()
    }
    fn one_spec() -> Self {
        Self::one()
    }
    fn clip_epsilon_spec() -> Self {
        Self::clip_epsilon()
    }
    fn machine_epsilon_spec() -> Self {
        Self::machine_epsilon()
    }
    fn from_count_spec(count: usize) -> Self {
        Self::from_count(count)
    }
    fn plus_spec(self, rhs: Self) -> Self {
        self.plus(rhs)
    }
    fn minus_spec(self, rhs: Self) -> Self {
        self.minus(rhs)
    }
    fn times_spec(self, rhs: Self) -> Self {
        self.times(rhs)
    }
    fn over_spec(self, rhs: Self) -> Self {
        self.over(rhs)
    }
    fn negated_spec(self) -> Self {
        self.negated()
    }
    fn rem_euclid_by_spec(self, rhs: Self) -> Self {
        self.rem_euclid_by(rhs)
    }
    fn floored_spec(self) -> Self {
        self.floored()
    }
    fn floor_count_spec(self) -> u64 {
        self.floor_count()
    }
    fn floor_steps_spec(self) -> i32 {
        self.floor_steps()
    }
    fn ceil_steps_spec(self) -> i32 {
        self.ceil_steps()
    }
    fn from_steps_spec(steps: i32) -> Self {
        Self::from_steps(steps)
    }
    fn to_fixed_spec(self) -> u32 {
        self.to_fixed()
    }
    fn from_fixed_spec(value: u32) -> Self {
        Self::from_fixed(value)
    }
    fn lt_spec(self, rhs: Self) -> bool {
        self.lt(rhs)
    }
    fn le_spec(self, rhs: Self) -> bool {
        self.le(rhs)
    }
    fn same_spec(self, rhs: Self) -> bool {
        self.same(rhs)
    }
    fn finite_spec(self) -> bool {
        self.finite()
    }
    fn nan_spec(self) -> bool {
        self.nan()
    }
    fn larger_spec(self, rhs: Self) -> Self {
        self.larger(rhs)
    }
    fn smaller_spec(self, rhs: Self) -> Self {
        self.smaller(rhs)
    }
    fn magnitude_spec(self) -> Self {
        self.magnitude()
    }
    fn rounded_spec(self) -> Self {
        self.rounded()
    }
    fn sign_spec(self) -> Self {
        self.sign()
    }
    fn root_spec(self) -> Self {
        self.root()
    }
    fn topmost_spec() -> Self {
        Self::topmost()
    }
}

fn timing(label: &str, duration_ms: f32) -> GpuPassTiming<Num> {
    GpuPassTiming { label: label.to_string(), duration_ms: Num(duration_ms) }
}

fn pass(label: &str, ms: f32) -> GpuPassSnapshot<Num> {
    GpuPassSnapshot {
        label: label.to_string(),
        latest_ms: Num(ms),
        average_ms: Num(ms),
        max_ms: Num(ms),
        sample_count: 1,
    }
}

fn snapshot(
    label: &str,
    timestamp: &str,
    commit: &str,
    passes: Vec<GpuPassSnapshot<Num>>,
) -> GpuBaselineSnapshot<Num> {
    GpuBaselineSnapshot {
        label: label.to_string(),
        timestamp: timestamp.to_string(),
        commit: commit.to_string(),
        frame_count: 1,
        passes,
    }
}

#[test]
fn accumulator_computes_means() {
    let mut acc = GpuTimingAccumulator::<Num>::new();
    acc.record_frame(&vec![timing("Sprite pass", 1.0), timing("Mesh pass", 0.5)]);
    acc.record_frame(&vec![timing("Sprite pass", 2.0), timing("Mesh pass", 0.25)]);
    let snapshot = acc.snapshot("label".to_string(), "ts".to_string(), "commit".to_string());
    assert_eq!(snapshot.frame_count, 2);
    assert_eq!(snapshot.passes.len(), 2);
    let sprite = snapshot.passes.iter().find(|p| p.label == "Sprite pass").unwrap();
    assert!((sprite.average_ms.0 - 1.5).abs() < f32::EPSILON);
    assert_eq!(sprite.sample_count, 2);
    assert_eq!(sprite.max_ms.0, 2.0);
}

#[test]
fn compare_baseline_reports_deltas() {
    let baseline =
        snapshot("base", "t0", "abc", vec![pass("Sprite pass", 1.0), pass("Mesh pass", 0.5)]);
    let current =
        snapshot("cur", "t1", "def", vec![pass("Sprite pass", 1.2), pass("Mesh pass", 0.6)]);
    let mut tolerances: TextMap<Num> = TextMap::new();
    tolerances.insert("Sprite pass".to_string(), Num(0.3));
    let deltas = compare_baselines(&baseline, &current, &tolerances, Num(0.2)).ok().unwrap();
    assert_eq!(deltas.len(), 2);
    let sprite = deltas.iter().find(|d| d.label == "Sprite pass").unwrap();
    assert!((sprite.delta_ms.0 - 0.2).abs() < f32::EPSILON);
    assert!(sprite.within_tolerance);
    assert_eq!(sprite.status, BaselinePassStatus::Matched);
    let mesh = deltas.iter().find(|d| d.label == "Mesh pass").unwrap();
    assert!((mesh.delta_ms.0 - 0.1).abs() < f32::EPSILON);
    assert_eq!(mesh.allowed_drift_ms.0, 0.2);
    assert_eq!(mesh.status, BaselinePassStatus::Matched);
}

#[test]
fn compare_baseline_reports_missing_and_extra_passes() {
    let baseline =
        snapshot("base", "t0", "abc", vec![pass("Sprite pass", 1.0), pass("Mesh pass", 0.5)]);
    let current =
        snapshot("cur", "t1", "def", vec![pass("Sprite pass", 1.2), pass("Lighting pass", 0.7)]);
    let deltas = compare_baselines(&baseline, &current, &TextMap::new(), Num(0.2)).ok().unwrap();
    assert_eq!(deltas.len(), 3);
    let sprite = deltas.iter().find(|d| d.label == "Sprite pass").unwrap();
    assert_eq!(sprite.status, BaselinePassStatus::Matched);
    let mesh = deltas.iter().find(|d| d.label == "Mesh pass").unwrap();
    assert_eq!(mesh.status, BaselinePassStatus::MissingInCurrent);
    assert!(!mesh.within_tolerance);
    assert_eq!(mesh.allowed_drift_ms.0, 0.0);
    let lighting = deltas.iter().find(|d| d.label == "Lighting pass").unwrap();
    assert_eq!(lighting.status, BaselinePassStatus::MissingInBaseline);
    assert_eq!(lighting.baseline_avg_ms.0, 0.0);
    assert_eq!(lighting.current_avg_ms.0, 0.7);
    assert!(!lighting.within_tolerance);
}

#[test]
fn comparisons_come_sorted_by_label() {
    let baseline = snapshot("base", "t0", "abc", vec![pass("Zeta", 1.0), pass("Alpha", 0.5)]);
    let current = snapshot("cur", "t1", "def", vec![pass("Zeta", 1.0), pass("Mid", 0.7)]);
    let deltas = compare_baselines(&baseline, &current, &TextMap::new(), Num(0.2)).ok().unwrap();
    let labels: Vec<&str> = deltas.iter().map(|d| d.label.as_str()).collect();
    assert_eq!(labels, vec!["Alpha", "Mid", "Zeta"]);
}

#[test]
fn empty_snapshots_are_errors() {
    let full = snapshot("a", "t", "c", vec![pass("Pass", 1.0)]);
    let empty = snapshot("b", "t", "c", vec![]);
    let first = compare_baselines(&empty, &full, &TextMap::new(), Num(0.1)).err().unwrap();
    assert_eq!(first, BaselineError::EmptyBaseline);
    assert_eq!(first.message(), "Baseline snapshot contains no GPU pass samples");
    let second = compare_baselines(&full, &empty, &TextMap::new(), Num(0.1)).err().unwrap();
    assert_eq!(second, BaselineError::EmptyCurrent);
    assert_eq!(second.message(), "Current snapshot contains no GPU pass samples");
}

#[test]
fn frames_without_timings_do_not_count() {
    let mut acc = GpuTimingAccumulator::<Num>::new();
    acc.record_frame(&vec![]);
    acc.record_frame(&vec![timing("Sprite pass", 1.0)]);
    let snapshot = acc.snapshot("l".to_string(), "t".to_string(), "c".to_string());
    assert_eq!(snapshot.frame_count, 1);
    assert_eq!(snapshot.passes[0].latest_ms, Num(1.0));
}

#[test]
fn samples_know_the_longest_and_the_latest() {
    let mut samples = PassSamples::<Num>::new();
    assert_eq!(samples.latest(), None);
    assert_eq!(samples.mean(), None);
    samples.record(Num(3.0));
    samples.record(Num(1.0));
    assert_eq!(samples.latest(), Some(Num(1.0)));
    assert_eq!(samples.mean(), Some(Num(2.0)));
    assert_eq!(samples.max_ms, Num(3.0));
}

#[test]
fn texts_are_in_alphabetical_order() {
    assert!(comes_before("abc", "abd"));
    assert!(comes_before("ab", "abc"));
    assert!(!comes_before("abc", "abc"));
    assert!(!comes_before("b", "abc"));
    let sorted = sort_by_label(vec![pass("b", 1.0), pass("a", 2.0), pass("b", 3.0)]);
    let shown: Vec<(&str, f32)> =
        sorted.iter().map(|p| (p.label.as_str(), p.latest_ms.0)).collect();
    assert_eq!(shown, vec![("a", 2.0), ("b", 1.0), ("b", 3.0)]);
}

#[test]
fn systems_that_took_longest_come_first() {
    let mut profiler = SystemProfiler::<Num>::new();
    profiler.record("a", Num(1.0));
    profiler.record("b", Num(5.0));
    profiler.record("a", Num(3.0));
    let all = profiler.summaries();
    assert_eq!(all.len(), 2);
    assert_eq!(all[0].name, "b");
    assert_eq!(all[1].name, "a");
    assert_eq!(all[1].last_ms, Num(3.0));
    assert_eq!(all[1].average_ms, Num(2.0));
    assert_eq!(all[1].max_ms, Num(3.0));
    assert_eq!(all[1].samples, 2);
}

#[test]
fn a_snapshot_has_not_drifted_from_itself() {
    let same = || snapshot("s", "t", "c", vec![pass("shadow", 1.5), pass("main", 4.25)]);
    let deltas = compare_baselines(&same(), &same(), &TextMap::new(), Num(0.0)).ok().unwrap();
    assert_eq!(deltas.len(), 2);
    for delta in deltas {
        assert_eq!(delta.status, BaselinePassStatus::Matched);
        assert_eq!(delta.delta_ms.0, 0.0);
        assert!(delta.within_tolerance);
    }
}
