//! The location cache contract at runtime, on both backings: write-read
//! round trips, the sentinel for never-written identities, accessors and
//! access-pattern hints.

use osm_resolver::cache::{phase_advice, LocationCache, MemAdvice, OptAdvice};
use osm_resolver::coords::Coordinate;
use osm_resolver::error::RunError;

#[test]
fn memory_cache_round_trip() {
    let mut cache = LocationCache::new_in_memory(16).unwrap();
    let c = Coordinate { lat: 123_456_789, lon: -987_654_321 };
    cache.set_coordinate(7, c);
    assert_eq!(cache.get_coordinate(7), c);
}

#[test]
fn memory_cache_unwritten_reads_sentinel() {
    let mut cache = LocationCache::new_in_memory(16).unwrap();
    cache.set_coordinate(7, Coordinate { lat: 5, lon: 5 });
    // Neighbors of the written identity still read the sentinel.
    assert_eq!(cache.get_coordinate(6), Coordinate::sentinel());
    assert_eq!(cache.get_coordinate(8), Coordinate::sentinel());
    // So does everything outside the capacity.
    assert_eq!(cache.get_coordinate(16), Coordinate::sentinel());
    assert_eq!(cache.get_coordinate(u64::MAX), Coordinate::sentinel());
}

#[test]
fn memory_cache_overwrite_keeps_last_value() {
    let mut cache = LocationCache::new_in_memory(4).unwrap();
    cache.set_coordinate(2, Coordinate { lat: 1, lon: 1 });
    cache.set_coordinate(2, Coordinate { lat: 9, lon: -9 });
    assert_eq!(cache.get_coordinate(2), Coordinate { lat: 9, lon: -9 });
}

#[test]
fn zero_capacity_is_rejected() {
    let outcome = LocationCache::new_in_memory(0);
    assert!(matches!(outcome, Err(RunError::ConfigurationError { .. })));
    let outcome = LocationCache::open("/tmp/osm_resolver_zero_capacity.bin", 0);
    assert!(matches!(outcome, Err(RunError::ConfigurationError { .. })));
}

#[test]
fn oversized_capacity_is_rejected() {
    let outcome = LocationCache::new_in_memory(usize::MAX);
    assert!(matches!(outcome, Err(RunError::ConfigurationError { .. })));
}

#[test]
fn unreachable_backing_path_is_an_io_failure() {
    let outcome = LocationCache::open("/tmp/osm_resolver_missing_dir/cache.bin", 8);
    assert!(matches!(outcome, Err(RunError::CacheIoFailure { .. })));
}

#[test]
fn file_cache_round_trip() {
    let mut cache = LocationCache::open("/tmp/osm_resolver_file_round_trip.bin", 64).unwrap();
    assert_eq!(cache.len(), 64);
    let c = Coordinate { lat: -450_000_000, lon: 1_700_000_000 };
    cache.set_coordinate(63, c);
    cache.set_coordinate(0, Coordinate { lat: 1, lon: 2 });
    assert_eq!(cache.get_coordinate(63), c);
    assert_eq!(cache.get_coordinate(0), Coordinate { lat: 1, lon: 2 });
    assert_eq!(cache.get_coordinate(64), Coordinate::sentinel());
}

#[test]
fn file_cache_persists_across_reopen() {
    let path = "/tmp/osm_resolver_file_reopen.bin";
    let c = Coordinate { lat: 777, lon: -777 };
    {
        let mut cache = LocationCache::open(path, 32).unwrap();
        cache.set_coordinate(11, c);
    }
    let reopened = LocationCache::open(path, 32).unwrap();
    assert_eq!(reopened.get_coordinate(11), c);
}

#[test]
fn file_cache_accessor_shares_records() {
    let mut cache = LocationCache::open("/tmp/osm_resolver_file_accessor.bin", 32).unwrap();
    cache.set_coordinate(5, Coordinate { lat: 44, lon: 55 });
    let accessor = cache.get_accessor();
    assert_eq!(accessor.len(), 32);
    assert_eq!(accessor.get_coordinate(5), Coordinate { lat: 44, lon: 55 });
}

#[test]
fn memory_cache_accessor_snapshots_records() {
    let mut cache = LocationCache::new_in_memory(8).unwrap();
    cache.set_coordinate(3, Coordinate { lat: -1, lon: -2 });
    let accessor = cache.get_accessor();
    assert_eq!(accessor.get_coordinate(3), Coordinate { lat: -1, lon: -2 });
}

#[test]
fn advise_is_not_fatal_without_strictness() {
    let cache = LocationCache::open("/tmp/osm_resolver_file_advise.bin", 32).unwrap();
    let hints = OptAdvice {
        advice: vec![MemAdvice::Sequential, MemAdvice::Random, MemAdvice::WillNeed],
    };
    assert!(cache.advise(&hints, false).is_ok());
    // These hints are honored on this platform even under strictness.
    assert!(cache.advise(&hints, true).is_ok());
    // The in-memory backing has no mapping to advise; hints are a no-op.
    let memory = LocationCache::new_in_memory(8).unwrap();
    assert!(memory.advise(&hints, true).is_ok());
}

#[test]
fn phase_hints_default_per_phase() {
    let unnamed = OptAdvice { advice: Vec::new() };
    let (population, resolution) = phase_advice(&unnamed);
    assert_eq!(population.advice, vec![MemAdvice::Sequential]);
    assert_eq!(resolution.advice, vec![MemAdvice::Random]);

    let named = OptAdvice { advice: vec![MemAdvice::WillNeed, MemAdvice::Normal] };
    let (population, resolution) = phase_advice(&named);
    assert_eq!(population.advice, named.advice);
    assert_eq!(resolution.advice, named.advice);
}
