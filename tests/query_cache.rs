use query_cache::{
    EntryEnv, EntryKey, EntryValue, Outcome, QueryCache, QueryCacheConfig, WasmResult,
};

const CYCLES_BALANCE: u128 = 100_000_000_000_000;
const GENESIS: u64 = 1_620_328_630_000_000_000;
const NANOS_PER_SEC: u64 = 1_000_000_000;

const OP_REPLY_DATA: u8 = 1;
const OP_CALLER_REPLY: u8 = 2;

fn seconds(nanos: u128) -> f64 {
    nanos as f64 / NANOS_PER_SEC as f64
}

fn user_test_id(n: u64) -> Vec<u8> {
    let mut id = n.to_be_bytes().to_vec();
    id.push(0xfe);
    id
}

/// Payload that makes the test program reply with `data`.
fn reply_data(data: &[u8]) -> Vec<u8> {
    let mut p = vec![OP_REPLY_DATA];
    p.extend_from_slice(data);
    p
}

/// Payload that makes the test program reply with the caller's id.
fn caller_reply() -> Vec<u8> {
    vec![OP_CALLER_REPLY]
}

struct Canister {
    id: Vec<u8>,
    version: u64,
    balance: u128,
}

/// A query handler in front of the cache: programs are simulated here, the
/// cache decides whether they run.
struct TestHandler {
    cache: QueryCache,
    batch_time: u64,
    canisters: Vec<Canister>,
    initial_cycles: u128,
}

impl TestHandler {
    fn new(capacity: u64) -> TestHandler {
        TestHandler {
            cache: QueryCache::new(capacity, true),
            batch_time: 0,
            canisters: vec![],
            initial_cycles: CYCLES_BALANCE,
        }
    }

    fn with_default_capacity() -> TestHandler {
        TestHandler::new(QueryCacheConfig::default().query_cache_capacity)
    }

    fn canister(&mut self, balance: u128) -> Vec<u8> {
        let n = self.canisters.len() as u8;
        let id = vec![0, 0, 0, 0, 0, 0x10, 0, n, 1, 1];
        self.canisters.push(Canister { id: id.clone(), version: 0, balance });
        id
    }

    fn canister_mut(&mut self, id: &[u8]) -> &mut Canister {
        self.canisters.iter_mut().find(|c| c.id == id).unwrap()
    }

    fn env_of(&self, id: &[u8]) -> EntryEnv {
        let c = self.canisters.iter().find(|c| c.id == id).unwrap();
        EntryEnv {
            batch_time: self.batch_time,
            canister_version: c.version,
            canister_balance: c.balance,
        }
    }

    fn execute(&self, key: &EntryKey, env: &EntryEnv) -> WasmResult {
        match key.method_name.as_str() {
            "query" => match key.method_payload.first() {
                Some(&OP_REPLY_DATA) => WasmResult::Reply(key.method_payload[1..].to_vec()),
                Some(&OP_CALLER_REPLY) => WasmResult::Reply(key.source.clone()),
                _ => WasmResult::Reject("unknown instruction".to_string()),
            },
            "f1" | "f2" => WasmResult::Reply(b"42".to_vec()),
            "canister_balance_sized_reply" => {
                let mut reply = vec![0u8; env.canister_balance as usize];
                if reply.len() >= 2 {
                    reply[0] = b'4';
                    reply[1] = b'2';
                }
                WasmResult::Reply(reply)
            }
            _ => WasmResult::Reject("no such method".to_string()),
        }
    }

    fn query(&mut self, source: Vec<u8>, receiver: &[u8], method: &str, payload: Vec<u8>) -> WasmResult {
        let key = EntryKey::new(source, receiver.to_vec(), method.to_string(), payload);
        let env = self.env_of(receiver);
        match self.cache.lookup(&key, &env) {
            Outcome::Hit(value) => value.result().clone(),
            Outcome::Miss => {
                let result = self.execute(&key, &env);
                self.cache.insert(key, env, result.clone());
                result
            }
        }
    }

    /// A periodic task of the program: it burns cycles.
    fn heartbeat(&mut self, id: &[u8]) {
        self.canister_mut(id).balance -= 1_000;
    }
}

#[test]
fn query_cache_entry_value_elapsed_seconds() {
    let current_time = GENESIS;
    let entry_env = EntryEnv {
        batch_time: current_time,
        canister_version: 1,
        canister_balance: 0,
    };
    let entry_value = EntryValue::new(entry_env, WasmResult::Reply(vec![]));
    let forward_time = current_time + 2 * NANOS_PER_SEC;
    assert_eq!(2.0, seconds(entry_value.elapsed_nanos(forward_time) as u128));

    // Negative time differences should give just 0.
    let backward_time = current_time.saturating_sub(2 * NANOS_PER_SEC);
    assert_eq!(0.0, seconds(entry_value.elapsed_nanos(backward_time) as u128));
}

#[test]
fn query_cache_metrics_work() {
    let mut test = TestHandler::with_default_capacity();
    let canister_id = test.canister(CYCLES_BALANCE);
    let output_1 = test.query(user_test_id(1), &canister_id, "query", caller_reply());
    assert_eq!(test.cache.metrics().hits(), 0);
    assert_eq!(test.cache.metrics().misses(), 1);
    let output_2 = test.query(user_test_id(1), &canister_id, "query", caller_reply());
    assert_eq!(test.cache.metrics().hits(), 1);
    assert_eq!(test.cache.metrics().misses(), 1);
    assert_eq!(output_1, output_2);
}

#[test]
fn query_cache_metrics_evicted_entries_count_bytes_work() {
    const ITERATIONS: usize = 5;
    const REPLY_SIZE: usize = 10_000;
    const QUERY_CACHE_SIZE: usize = 1;
    // Plus some room for the keys, headers etc.
    const QUERY_CACHE_CAPACITY: usize = REPLY_SIZE * QUERY_CACHE_SIZE + REPLY_SIZE;

    let mut test = TestHandler::new(QUERY_CACHE_CAPACITY as u64);
    let canister_id = test.canister(CYCLES_BALANCE);

    for i in 0..ITERATIONS {
        // Every query is unique and should produce a new cache entry.
        // The bytes are stored twice: as a payload in key and as a reply in value.
        let output = test.query(
            user_test_id(i as u64),
            &canister_id,
            "query",
            reply_data(&[1; REPLY_SIZE / 2]),
        );
        assert_eq!(output, WasmResult::Reply([1; REPLY_SIZE / 2].into()));
        // One unique query per 2 seconds.
        test.batch_time += 2 * NANOS_PER_SEC;
    }

    let metrics = test.cache.metrics();
    assert_eq!(0, metrics.hits());
    assert_eq!(ITERATIONS, metrics.misses() as usize);
    assert_eq!(ITERATIONS - QUERY_CACHE_SIZE, metrics.evicted_entries() as usize);
    // Times 2 seconds per each query.
    assert_eq!(
        (ITERATIONS - QUERY_CACHE_SIZE) * 2,
        seconds(metrics.evicted_entries_duration().sample_sum()) as usize
    );
    assert_eq!(
        ITERATIONS - QUERY_CACHE_SIZE,
        metrics.evicted_entries_duration().sample_count() as usize
    );
    assert_eq!(0, metrics.invalidated_entries());

    let count_bytes = metrics.count_bytes() as usize;
    // The size includes the key and the captured environment, so
    // REPLY_SIZE < count_bytes < REPLY_SIZE * 2
    assert!(REPLY_SIZE < count_bytes);
    assert!(REPLY_SIZE * 2 > count_bytes);
}

#[test]
fn query_cache_metrics_evicted_entries_negative_duration_works() {
    const REPLY_SIZE: usize = 10_000;
    const QUERY_CACHE_SIZE: usize = 1;
    // Plus some room for the keys, headers etc.
    const QUERY_CACHE_CAPACITY: usize = REPLY_SIZE * QUERY_CACHE_SIZE + REPLY_SIZE;

    let mut test = TestHandler::new(QUERY_CACHE_CAPACITY as u64);
    test.batch_time = GENESIS;
    let canister_id = test.canister(CYCLES_BALANCE);

    // Run the first query.
    let output = test.query(user_test_id(1), &canister_id, "query", reply_data(&[1; REPLY_SIZE / 2]));
    assert_eq!(output, WasmResult::Reply([1; REPLY_SIZE / 2].into()));

    // Move the time backward.
    test.batch_time = test.batch_time.saturating_sub(2 * NANOS_PER_SEC);

    // The second query should evict the first one, as there is no room in the cache for two queries.
    // The query is different, so it evicts rather than invalidates.
    let output = test.query(user_test_id(2), &canister_id, "query", reply_data(&[2; REPLY_SIZE / 2]));
    assert_eq!(output, WasmResult::Reply([2; REPLY_SIZE / 2].into()));

    let metrics = test.cache.metrics();
    // Negative durations should give just 0.
    assert_eq!(0, seconds(metrics.evicted_entries_duration().sample_sum()) as usize);
    // One entry should be evicted.
    assert_eq!(1, metrics.evicted_entries_duration().sample_count() as usize);
}

#[test]
fn query_cache_metrics_invalidated_entries_work() {
    const ITERATIONS: usize = 5;

    let mut test = TestHandler::with_default_capacity();
    let canister_id = test.canister(CYCLES_BALANCE);

    for _ in 0..ITERATIONS {
        // Every query is the same and should hit the same cache entry.
        let output = test.query(user_test_id(1), &canister_id, "query", reply_data(&[42]));
        assert_eq!(output, WasmResult::Reply([42].into()));
        // Executing a heartbeat should render the cache entry invalid.
        test.heartbeat(&canister_id);
    }

    let metrics = test.cache.metrics();
    assert_eq!(0, metrics.hits());
    assert_eq!(ITERATIONS, metrics.misses() as usize);
    assert_eq!(0, metrics.evicted_entries() as usize);
    // Minus one for the first iteration when the entry was just added into the cache.
    assert_eq!(ITERATIONS - 1, metrics.invalidated_entries() as usize);
}

#[test]
fn query_cache_key_different_source_returns_different_results() {
    let mut test = TestHandler::with_default_capacity();
    let canister_id = test.canister(CYCLES_BALANCE);
    let output_1 = test.query(user_test_id(1), &canister_id, "query", caller_reply());
    assert_eq!(test.cache.metrics().misses(), 1);
    assert_eq!(output_1, WasmResult::Reply(user_test_id(1)));
    let output_2 = test.query(user_test_id(2), &canister_id, "query", caller_reply());
    assert_eq!(test.cache.metrics().misses(), 2);
    assert_eq!(output_2, WasmResult::Reply(user_test_id(2)));
}

#[test]
fn query_cache_key_different_receiver_returns_different_results() {
    let mut test = TestHandler::with_default_capacity();
    let canister_id_1 = test.canister(CYCLES_BALANCE);
    let canister_id_2 = test.canister(CYCLES_BALANCE);
    let output_1 = test.query(user_test_id(1), &canister_id_1, "query", reply_data(&[42]));
    assert_eq!(test.cache.metrics().misses(), 1);
    assert_eq!(output_1, WasmResult::Reply([42].into()));
    let output_2 = test.query(user_test_id(1), &canister_id_2, "query", reply_data(&[42]));
    assert_eq!(test.cache.metrics().misses(), 2);
    assert_eq!(output_1, output_2);
}

#[test]
fn query_cache_key_different_method_name_returns_different_results() {
    let mut test = TestHandler::with_default_capacity();
    let canister_id = test.canister(test.initial_cycles);
    let output_1 = test.query(user_test_id(1), &canister_id, "f1", vec![]);
    assert_eq!(test.cache.metrics().misses(), 1);
    assert_eq!(output_1, WasmResult::Reply(b"42".to_vec()));
    let output_2 = test.query(user_test_id(1), &canister_id, "f2", vec![]);
    assert_eq!(test.cache.metrics().misses(), 2);
    assert_eq!(output_1, output_2);
}

#[test]
fn query_cache_key_different_method_payload_returns_different_results() {
    let mut test = TestHandler::with_default_capacity();
    let canister_id = test.canister(test.initial_cycles);
    let output_1 = test.query(user_test_id(1), &canister_id, "f1", vec![]);
    assert_eq!(test.cache.metrics().misses(), 1);
    assert_eq!(output_1, WasmResult::Reply(b"42".to_vec()));
    let output_2 = test.query(user_test_id(1), &canister_id, "f1", vec![42]);
    assert_eq!(test.cache.metrics().misses(), 2);
    assert_eq!(output_1, output_2);
}

#[test]
fn query_cache_env_different_batch_time_returns_different_results() {
    let mut test = TestHandler::with_default_capacity();
    let canister_id = test.canister(CYCLES_BALANCE);
    let output_1 = test.query(user_test_id(1), &canister_id, "query", reply_data(&[42]));
    assert_eq!(test.cache.metrics().misses(), 1);
    assert_eq!(output_1, WasmResult::Reply([42].into()));
    test.batch_time += NANOS_PER_SEC;
    let output_2 = test.query(user_test_id(1), &canister_id, "query", reply_data(&[42]));
    let metrics = test.cache.metrics();
    assert_eq!(2, metrics.misses());
    assert_eq!(output_1, output_2);
    assert_eq!(1, metrics.invalidated_entries());
    assert_eq!(1, metrics.invalidated_entries_by_time());
    assert_eq!(0, metrics.invalidated_entries_by_canister_version());
    assert_eq!(0, metrics.invalidated_entries_by_canister_balance());
    assert_eq!(1, seconds(metrics.invalidated_entries_duration().sample_sum()) as usize);
    assert_eq!(1, metrics.invalidated_entries_duration().sample_count() as usize);
}

#[test]
fn query_cache_env_invalidated_entries_negative_duration_works() {
    let mut test = TestHandler::with_default_capacity();
    test.batch_time = GENESIS;
    let canister_id = test.canister(CYCLES_BALANCE);
    let output_1 = test.query(user_test_id(1), &canister_id, "query", reply_data(&[42]));
    // Move the time backward.
    test.batch_time = test.batch_time.saturating_sub(NANOS_PER_SEC);
    let output_2 = test.query(user_test_id(1), &canister_id, "query", reply_data(&[42]));
    let metrics = test.cache.metrics();
    assert_eq!(output_1, output_2);
    assert_eq!(1, metrics.invalidated_entries_by_time());
    // Negative durations should give just 0.
    assert_eq!(0, seconds(metrics.invalidated_entries_duration().sample_sum()) as usize);
    assert_eq!(1, metrics.invalidated_entries_duration().sample_count() as usize);
}

#[test]
fn query_cache_env_different_canister_version_returns_different_results() {
    let mut test = TestHandler::with_default_capacity();
    let canister_id = test.canister(CYCLES_BALANCE);
    let output_1 = test.query(user_test_id(1), &canister_id, "query", reply_data(&[42]));
    assert_eq!(test.cache.metrics().misses(), 1);
    assert_eq!(output_1, WasmResult::Reply([42].into()));
    test.canister_mut(&canister_id).version += 1;
    let output_2 = test.query(user_test_id(1), &canister_id, "query", reply_data(&[42]));
    let metrics = test.cache.metrics();
    assert_eq!(2, metrics.misses());
    assert_eq!(output_1, output_2);
    assert_eq!(1, metrics.invalidated_entries());
    assert_eq!(0, metrics.invalidated_entries_by_time());
    assert_eq!(1, metrics.invalidated_entries_by_canister_version());
    assert_eq!(0, metrics.invalidated_entries_by_canister_balance());
    assert_eq!(0, seconds(metrics.invalidated_entries_duration().sample_sum()) as usize);
    assert_eq!(1, metrics.invalidated_entries_duration().sample_count() as usize);
}

#[test]
fn query_cache_env_different_canister_balance_returns_different_results() {
    let mut test = TestHandler::with_default_capacity();
    let canister_id = test.canister(CYCLES_BALANCE);
    let output_1 = test.query(user_test_id(1), &canister_id, "query", reply_data(&[42]));
    assert_eq!(test.cache.metrics().misses(), 1);
    assert_eq!(output_1, WasmResult::Reply([42].into()));
    test.canister_mut(&canister_id).balance -= 1;
    let output_2 = test.query(user_test_id(1), &canister_id, "query", reply_data(&[42]));
    let metrics = test.cache.metrics();
    assert_eq!(2, metrics.misses());
    assert_eq!(output_1, output_2);
    assert_eq!(1, metrics.invalidated_entries());
    assert_eq!(0, metrics.invalidated_entries_by_time());
    assert_eq!(0, metrics.invalidated_entries_by_canister_version());
    assert_eq!(1, metrics.invalidated_entries_by_canister_balance());
    assert_eq!(0, seconds(metrics.invalidated_entries_duration().sample_sum()) as usize);
    assert_eq!(1, metrics.invalidated_entries_duration().sample_count() as usize);
}

#[test]
fn query_cache_env_combined_invalidation() {
    let mut test = TestHandler::with_default_capacity();
    let canister_id = test.canister(CYCLES_BALANCE);
    let output_1 = test.query(user_test_id(1), &canister_id, "query", reply_data(&[42]));
    test.batch_time += NANOS_PER_SEC;
    test.canister_mut(&canister_id).version += 1;
    test.canister_mut(&canister_id).balance -= 1;
    let output_2 = test.query(user_test_id(1), &canister_id, "query", reply_data(&[42]));
    let metrics = test.cache.metrics();
    assert_eq!(2, metrics.misses());
    assert_eq!(output_1, output_2);
    assert_eq!(1, metrics.invalidated_entries());
    assert_eq!(1, metrics.invalidated_entries_by_time());
    assert_eq!(1, metrics.invalidated_entries_by_canister_version());
    assert_eq!(1, metrics.invalidated_entries_by_canister_balance());
}

#[test]
fn query_cache_env_old_invalid_entry_frees_memory() {
    const BIG_RESPONSE_SIZE: usize = 1_000_000;
    const SMALL_RESPONSE_SIZE: usize = 42;

    // To replace the cache entry, the query requests must be identical, so
    // the cycles balance is what makes the replies differ: the first reply
    // is 1MB.
    let mut test = TestHandler::with_default_capacity();
    test.initial_cycles = BIG_RESPONSE_SIZE as u128;
    let canister_id = test.canister(test.initial_cycles);

    let count_bytes = test.cache.count_bytes() as usize;
    // Initially the cache should be empty, i.e. less than 1MB.
    assert!(count_bytes < BIG_RESPONSE_SIZE);

    // The 1MB result will be cached internally.
    let output = test.query(user_test_id(1), &canister_id, "canister_balance_sized_reply", vec![]);
    assert_eq!(BIG_RESPONSE_SIZE, output.payload_bytes());
    let count_bytes = test.cache.count_bytes() as usize;
    // After the first reply, the cache should have more than 1MB of data.
    assert!(count_bytes > BIG_RESPONSE_SIZE);

    // Set the canister balance to 42B, so the second reply will have just 42 bytes.
    test.canister_mut(&canister_id).balance -= (BIG_RESPONSE_SIZE - SMALL_RESPONSE_SIZE) as u128;

    // The new 42B reply must invalidate and replace the previous 1MB reply in the cache.
    let output = test.query(user_test_id(1), &canister_id, "canister_balance_sized_reply", vec![]);
    assert_eq!(SMALL_RESPONSE_SIZE, output.payload_bytes());
    let count_bytes = test.cache.count_bytes() as usize;
    assert!(count_bytes > SMALL_RESPONSE_SIZE);
    assert!(count_bytes < BIG_RESPONSE_SIZE);
}

#[test]
fn query_cache_capacity_is_respected() {
    const REPLY_SIZE: usize = 10_000;
    const QUERY_CACHE_CAPACITY: usize = REPLY_SIZE * 3;

    let mut test = TestHandler::new(QUERY_CACHE_CAPACITY as u64);
    let canister_id = test.canister(CYCLES_BALANCE);

    // Initially the cache should be empty, i.e. less than REPLY_SIZE.
    let count_bytes = test.cache.count_bytes() as usize;
    assert!(count_bytes < REPLY_SIZE);

    // All replies should hit the same cache entry.
    for _ in 0..5 {
        // The bytes are stored twice: as payload and then as reply.
        let _res = test.query(user_test_id(1), &canister_id, "query", reply_data(&[1; REPLY_SIZE / 2]));
        // Now there should be only one reply in the cache.
        let count_bytes = test.cache.count_bytes() as usize;
        assert!(count_bytes > REPLY_SIZE);
        assert!(count_bytes < QUERY_CACHE_CAPACITY);
    }

    // Now the replies should hit another entry.
    for _ in 0..5 {
        let _res = test.query(user_test_id(2), &canister_id, "query", reply_data(&[2; REPLY_SIZE / 2]));
        // Now there should be two replies in the cache.
        let count_bytes = test.cache.count_bytes() as usize;
        assert!(count_bytes > REPLY_SIZE * 2);
        assert!(count_bytes < QUERY_CACHE_CAPACITY);
    }

    // Now the replies should evict the first entry.
    for _ in 0..5 {
        let _res = test.query(user_test_id(3), &canister_id, "query", reply_data(&[3; REPLY_SIZE / 2]));
        // There should be still just two replies in the cache.
        let count_bytes = test.cache.count_bytes() as usize;
        assert!(count_bytes > REPLY_SIZE * 2);
        assert!(count_bytes < QUERY_CACHE_CAPACITY);
    }
}

#[test]
fn query_cache_capacity_zero() {
    let mut test = TestHandler::new(0);
    let canister_id = test.canister(CYCLES_BALANCE);
    // Even with zero capacity the cache data structure uses some bytes.
    let initial_count_bytes = test.cache.count_bytes();

    // Replies should not change the initial (zero) capacity.
    for _ in 0..5 {
        let _res = test.query(user_test_id(1), &canister_id, "query", reply_data(&[1]));
        let count_bytes = test.cache.count_bytes();
        assert_eq!(initial_count_bytes, count_bytes);
    }
}
