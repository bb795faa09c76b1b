use summerset::client::bench::{ClientBench, ModeParamsBench, OpenLoopEvent};
use summerset::server::Command;
use summerset::utils::SummersetError;

fn params() -> ModeParamsBench {
    ModeParamsBench {
        freq_target: 1000,
        length_s: 5,
        put_ratio: 30,
        value_size: 64,
    }
}

fn is_alnum(text: &str, len: usize) -> bool {
    text.chars().count() == len && text.chars().all(|c| c.is_ascii_alphanumeric())
}

#[test]
fn default_params() {
    assert_eq!(
        ModeParamsBench::default(),
        ModeParamsBench {
            freq_target: 200000,
            length_s: 30,
            put_ratio: 50,
            value_size: 1024,
        }
    );
}

#[test]
fn new_bench_has_random_value_and_keys() {
    let bench = ClientBench::new(params()).unwrap();
    assert_eq!(bench.params, params());
    assert!(is_alnum(&bench.value, 64));
    assert_eq!(bench.keys_pool.len(), 5);
    for key in &bench.keys_pool {
        assert!(is_alnum(key, 8));
    }
    assert_eq!((bench.total_cnt, bench.reply_cnt, bench.chunk_cnt), (0, 0, 0));
    assert!(!bench.retrying);
    assert!(!bench.slowdown);
    // limits are accepted
    let edge = ModeParamsBench {
        freq_target: 10000000,
        length_s: 1,
        put_ratio: 100,
        value_size: 1,
    };
    assert!(is_alnum(&ClientBench::new(edge).unwrap().value, 1));
    assert!(ClientBench::new(ModeParamsBench { freq_target: 0, ..params() }).is_ok());
    assert!(ClientBench::new(ModeParamsBench { put_ratio: 0, ..params() }).is_ok());
}

#[test]
fn new_bench_rejects_params_out_of_range() {
    assert_eq!(
        ClientBench::new(ModeParamsBench { freq_target: 10000001, ..params() }),
        Err(SummersetError::InvalidFreqTarget { freq_target: 10000001 })
    );
    assert_eq!(
        ClientBench::new(ModeParamsBench { length_s: 0, ..params() }),
        Err(SummersetError::InvalidLengthS { length_s: 0 })
    );
    assert_eq!(
        ClientBench::new(ModeParamsBench { put_ratio: 101, ..params() }),
        Err(SummersetError::InvalidPutRatio { put_ratio: 101 })
    );
    assert_eq!(
        ClientBench::new(ModeParamsBench { value_size: 0, ..params() }),
        Err(SummersetError::InvalidValueSize { value_size: 0 })
    );
    // the first fault is the one reported
    assert_eq!(
        ClientBench::new(ModeParamsBench {
            freq_target: u64::MAX,
            length_s: 0,
            put_ratio: 255,
            value_size: 0
        }),
        Err(SummersetError::InvalidFreqTarget { freq_target: u64::MAX })
    );
    assert_eq!(
        ClientBench::new(ModeParamsBench { put_ratio: 200, value_size: 0, ..params() }),
        Err(SummersetError::InvalidPutRatio { put_ratio: 200 })
    );
}

#[test]
fn tick_interval() {
    assert_eq!(params().tick_interval_ns(), Some(1000000));
    assert_eq!(ModeParamsBench::default().tick_interval_ns(), Some(5000));
    assert_eq!(ModeParamsBench { freq_target: 3, ..params() }.tick_interval_ns(), Some(333333333));
    assert_eq!(ModeParamsBench { freq_target: 10000000, ..params() }.tick_interval_ns(), Some(100));
    assert_eq!(ModeParamsBench { freq_target: 0, ..params() }.tick_interval_ns(), None);
}

#[test]
fn pick_cmd_goes_by_the_roll() {
    let bench = ClientBench::new(params()).unwrap();
    let put = |k: usize| Command::Put {
        key: bench.keys_pool[k].clone(),
        value: bench.value.clone(),
    };
    let get = |k: usize| Command::Get {
        key: bench.keys_pool[k].clone(),
    };
    assert_eq!(bench.pick_cmd(0, 0), put(0));
    assert_eq!(bench.pick_cmd(4, 30), put(4));
    assert_eq!(bench.pick_cmd(4, 31), get(4));
    assert_eq!(bench.pick_cmd(2, 100), get(2));
    // even with a put ratio of zero a roll of zero gives a put
    let bench = ClientBench::new(ModeParamsBench { put_ratio: 0, ..params() }).unwrap();
    assert!(matches!(bench.pick_cmd(1, 0), Command::Put { .. }));
    assert!(matches!(bench.pick_cmd(1, 1), Command::Get { .. }));
}

#[test]
fn rand_cmd_draws_from_the_pool() {
    let bench = ClientBench::new(ModeParamsBench { put_ratio: 100, ..params() }).unwrap();
    let mut seen = std::collections::HashSet::new();
    for _ in 0..400 {
        match bench.issue_rand_cmd() {
            Command::Put { key, value } => {
                assert!(bench.keys_pool.contains(&key));
                assert_eq!(value, bench.value);
                seen.insert(key);
            }
            Command::Get { .. } => panic!("a roll of at most 100 gives a put at ratio 100"),
        }
    }
    // 400 draws from 5 keys that never leave the first would mean that
    // nothing is drawn at all
    assert!(seen.len() > 1);
}

#[test]
fn rand_cmd_mixes_puts_and_gets() {
    let bench = ClientBench::new(ModeParamsBench { put_ratio: 50, ..params() }).unwrap();
    let mut puts = 0;
    let mut gets = 0;
    for _ in 0..400 {
        match bench.issue_rand_cmd() {
            Command::Put { .. } => puts += 1,
            Command::Get { key } => {
                assert!(bench.keys_pool.contains(&key));
                gets += 1
            }
        }
    }
    assert!(puts > 0 && gets > 0);
}

#[test]
fn closed_loop_counts_and_waits() {
    let mut bench = ClientBench::new(params()).unwrap();
    // the request was sent: wait for its reply
    assert!(bench.closed_loop_iter(Some(1)));
    assert_eq!(bench.total_cnt, 1);
    assert!(!bench.retrying);
    bench.reply_received();
    assert_eq!((bench.reply_cnt, bench.chunk_cnt), (1, 1));
    // the next one could not be sent: nothing to wait for, try again
    assert!(!bench.closed_loop_iter(None));
    assert_eq!(bench.total_cnt, 1);
    assert!(bench.retrying);
    assert!(bench.closed_loop_iter(Some(2)));
    assert_eq!(bench.total_cnt, 2);
    assert!(!bench.retrying);
    // still waiting for the reply to request 2
    assert!(bench.closed_loop_iter(None));
}

#[test]
fn open_loop_slows_down_when_sending_blocks() {
    let mut bench = ClientBench::new(params()).unwrap();
    bench.open_loop_iter(OpenLoopEvent::Tick { sent: Some(1) });
    bench.open_loop_iter(OpenLoopEvent::Tick { sent: Some(2) });
    assert_eq!(bench.total_cnt, 2);
    assert!(!bench.slowdown);
    bench.open_loop_iter(OpenLoopEvent::Tick { sent: None });
    assert!(bench.retrying);
    assert!(bench.slowdown);
    assert_eq!(bench.total_cnt, 2);
    // a wait that ends without a reply changes nothing
    bench.open_loop_iter(OpenLoopEvent::Reply { received: false });
    assert!(bench.slowdown);
    assert_eq!(bench.reply_cnt, 0);
    bench.open_loop_iter(OpenLoopEvent::Reply { received: true });
    assert!(!bench.slowdown);
    assert!(bench.retrying);
    assert_eq!((bench.reply_cnt, bench.chunk_cnt), (1, 1));
    bench.open_loop_iter(OpenLoopEvent::Tick { sent: Some(3) });
    assert!(!bench.retrying);
    assert_eq!(bench.total_cnt, 3);
}

#[test]
fn open_loop_does_not_slow_down_when_nothing_is_owed() {
    let mut bench = ClientBench::new(params()).unwrap();
    bench.open_loop_iter(OpenLoopEvent::Tick { sent: None });
    assert!(bench.retrying);
    assert!(!bench.slowdown);
}

#[test]
fn take_chunk_restarts_the_chunk() {
    let mut bench = ClientBench::new(params()).unwrap();
    bench.closed_loop_iter(Some(1));
    bench.reply_received();
    bench.closed_loop_iter(Some(2));
    bench.reply_received();
    assert_eq!(bench.take_chunk(), 2);
    assert_eq!(bench.chunk_cnt, 0);
    assert_eq!(bench.reply_cnt, 2);
    assert_eq!(bench.take_chunk(), 0);
}
