use ttsvii::metrics::{Metrics, RateLimiter};

#[test]
fn buckets_hold_at_least_one_token_and_never_overflow() {
    assert_eq!(RateLimiter::new(0).capacity, 1);
    let bucket = RateLimiter::new(20);
    assert_eq!(bucket.capacity, 20);
    assert_eq!(bucket.refill(19), 20);
    assert_eq!(bucket.refill(20), 20);
    assert_eq!(bucket.refill(0), 1);
}

fn percentile(data: &[u64], q: f64) -> u64 {
    let mut sorted: Vec<u64> = data.to_vec();
    sorted.sort();
    if sorted.is_empty() {
        return 0;
    }
    let idx = ((q * (sorted.len() as f64 - 1.0)).round() as usize).min(sorted.len() - 1);
    sorted[idx]
}

#[test]
fn percentiles_are_those_of_floats() {
    let mut m = Metrics::new();
    assert_eq!(m.snapshot(), (0, 0, 0, 0));
    let mut all: Vec<u64> = Vec::new();
    let mut x: u64 = 17;
    for _ in 0..200 {
        x = (x * 7919 + 13) % 100_003;
        all.push(x);
        m.record_latency(x);
        let (p50, p95, _, _) = m.snapshot();
        assert_eq!(p50, percentile(&all, 0.5), "{}", all.len());
        assert_eq!(p95, percentile(&all, 0.95), "{}", all.len());
        assert!(all.contains(&p50) && all.contains(&p95) && p50 <= p95);
    }
}

#[test]
fn only_the_newest_latencies_are_kept() {
    let mut m = Metrics::new();
    for i in 0..350u64 {
        m.record_latency(i);
    }
    assert_eq!(m.snapshot(), (250, 339, 0, 0));
}

#[test]
fn not_more_requests_pass_than_there_are_tokens() {
    let bucket = RateLimiter::new(4);
    let mut available = bucket.capacity;
    let mut passed = 0;
    for _ in 0..10 {
        if let Some(left) = bucket.take(available) {
            available = left;
            passed += 1;
        }
    }
    assert_eq!((passed, available), (4, 0));
    assert_eq!(bucket.take(0), None);
    available = bucket.refill(available);
    assert_eq!(bucket.take(available), Some(0));
}

#[test]
fn ends_of_tasks_are_counted() {
    let mut m = Metrics::new();
    m.record_end(true);
    m.record_end(false);
    m.record_end(true);
    m.record_latency(8);
    assert_eq!(m.snapshot(), (8, 8, 2, 1));
}
