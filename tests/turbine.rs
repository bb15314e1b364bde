use turbine::{EventProcessor, Slot, Turbine};

#[derive(Clone, Debug)]
struct TestSlot {
    pub value: i64,
}

impl Slot for TestSlot {
    fn new() -> TestSlot {
        TestSlot { value: -1 }
    }
}

fn with_value(value: i64) -> TestSlot {
    let mut x: TestSlot = Slot::new();
    x.value = value;
    x
}

/// Runs one step of a consumer: takes the batch released now, if any, hands
/// its values to `seen`, and commits it. Returns the batch length.
fn consume(ep: &mut EventProcessor<TestSlot>, seen: &mut Vec<i64>) -> u64 {
    let available = ep.available();
    match ep.next_batch(available) {
        None => 0,
        Some(b) => {
            let data = ep.read(&b);
            assert_eq!(data.len() as u64, b.end - b.start);
            for x in data.iter() {
                seen.push(x.value);
            }
            ep.commit(&b);
            b.end - b.start
        }
    }
}

fn assert_in_order(seen: &Vec<i64>, n: i64) {
    assert_eq!(seen.len() as i64, n);
    let mut last = -1i64;
    for v in seen.iter() {
        assert!(last + 1 == *v);
        last = *v;
    }
}

fn assert_send<X: Send>(_x: X) {}

#[test]
fn test_init() {
    let t: Turbine<TestSlot> = Turbine::new(1024);
    assert_eq!(t.size(), 1024);
    assert_eq!(t.current_pos(), 0);
}

#[test]
fn test_create_epb() {
    let mut t: Turbine<TestSlot> = Turbine::new(1024);
    let e1 = t.ep_new();
    assert_eq!(e1, Ok(0));
}

#[test]
fn test_depends() {
    let mut t: Turbine<TestSlot> = Turbine::new(1024);
    let e1 = t.ep_new().unwrap();
    let e2 = t.ep_new().unwrap();

    assert!(t.ep_depends(e2, e1).is_ok());
}

#[test]
fn test_many_depends() {
    let mut t: Turbine<TestSlot> = Turbine::new(1024);
    let e1 = t.ep_new().unwrap();
    let e2 = t.ep_new().unwrap();
    let e3 = t.ep_new().unwrap();
    let e4 = t.ep_new().unwrap();
    let e5 = t.ep_new().unwrap();
    let e6 = t.ep_new().unwrap();

    assert!(t.ep_depends(e2, e1).is_ok());
    assert!(t.ep_depends(e5, e4).is_ok());
    assert!(t.ep_depends(e3, e1).is_ok());
    assert!(t.ep_depends(e4, e3).is_ok());
    assert!(t.ep_depends(e3, e2).is_ok());

    t.ep_finalize(e1);
    t.ep_finalize(e2);
    t.ep_finalize(e3);
    t.ep_finalize(e4);
    t.ep_finalize(e5);
    t.ep_finalize(e6);
}

#[test]
fn test_finalize() {
    let mut t: Turbine<TestSlot> = Turbine::new(1024);
    let e1 = t.ep_new();
    assert!(e1.is_ok() == true);

    let _event_processor = t.ep_finalize(e1.unwrap());

    let e2 = t.ep_new();
    assert!(e2.is_err() == true);
}

#[test]
fn test_double_finalize() {
    let mut t: Turbine<TestSlot> = Turbine::new(1024);
    let e1 = t.ep_new();
    assert!(e1.is_ok() == true);

    let _event_processor = t.ep_finalize(e1.unwrap());
    let _event_processor2 = t.ep_finalize(e1.unwrap());

    let e2 = t.ep_new();
    assert!(e2.is_err() == true);
}

#[test]
fn test_send_task() {
    let mut t: Turbine<TestSlot> = Turbine::new(1024);
    let e1 = t.ep_new();
    assert!(e1.is_ok() == true);

    let e2 = t.ep_new();
    assert!(e2.is_ok() == true);

    assert!(t.ep_depends(e2.unwrap(), e1.unwrap()).is_ok());

    let ep1 = t.ep_finalize(e1.unwrap());
    let ep2 = t.ep_finalize(e2.unwrap());

    assert_send(ep1);
    assert_send(ep2);
}

#[test]
fn test_write_one() {
    let mut t: Turbine<TestSlot> = Turbine::new(1024);
    let e1 = t.ep_new().unwrap();

    let _event_processor = t.ep_finalize(e1);

    assert!(t.current_pos() == 0);
    assert!(t.try_write(Slot::new()).is_ok());

    assert!(t.current_pos() == 1);
}

#[test]
fn test_write_1024() {
    let mut t: Turbine<TestSlot> = Turbine::new(1024);
    let e1 = t.ep_new().unwrap();

    let _event_processor = t.ep_finalize(e1);

    assert!(t.current_pos() == 0);

    for i in 1u64..1023 {
        assert!(t.try_write(Slot::new()).is_ok());

        assert!(t.current_pos() == i);
    }
}

#[test]
fn test_write_ring_rollover() {
    let mut t: Turbine<TestSlot> = Turbine::new(1024);
    let e1 = t.ep_new().unwrap();

    let mut event_processor = t.ep_finalize(e1);
    let mut seen: Vec<i64> = Vec::new();

    assert!(t.current_pos() == 0);

    // the first record is consumed, so the reader's cursor stands at 1
    assert!(t.try_write(with_value(0)).is_ok());
    assert_eq!(consume(&mut event_processor, &mut seen), 1);
    assert_eq!(event_processor.cursor(), 1);

    for i in 2u64..1025 {
        assert!(t.try_write(Slot::new()).is_ok());

        assert!(t.current_pos() == i);
    }
    assert!(t.try_write(Slot::new()).is_ok());
    assert!(t.current_pos() == 1025);
}

#[test]
fn test_write_ring_double_rollover() {
    let mut t: Turbine<TestSlot> = Turbine::new(1024);
    let e1 = t.ep_new().unwrap();

    let mut event_processor = t.ep_finalize(e1);
    let mut seen: Vec<i64> = Vec::new();

    assert!(t.current_pos() == 0);

    assert!(t.try_write(with_value(0)).is_ok());
    assert_eq!(consume(&mut event_processor, &mut seen), 1);

    for i in 2u64..1025 {
        assert!(t.try_write(Slot::new()).is_ok());

        assert!(t.current_pos() == i);
    }

    // the reader catches up, so the producer can roll over again
    while consume(&mut event_processor, &mut seen) > 0 {}
    assert_eq!(event_processor.cursor(), 1024);
    for _i in 1isize..1025isize {
        assert!(t.try_write(Slot::new()).is_ok());
    }
    assert!(t.current_pos() == 2048);
}

#[test]
fn test_write_one_read_one() {
    let mut t: Turbine<TestSlot> = Turbine::new(1024);
    let e1 = t.ep_new().unwrap();

    let mut event_processor = t.ep_finalize(e1);

    assert!(t.current_pos() == 0);

    let mut x: TestSlot = Slot::new();
    x.value = 19;
    assert!(t.try_write(x).is_ok());

    assert!(t.current_pos() == 1);

    let available = event_processor.available();
    let b = event_processor.next_batch(available).unwrap();
    let data = event_processor.read(&b);
    assert!(data.len() == 1);
    assert!(data[0].value == 19);
    event_processor.commit(&b);
    assert_eq!(event_processor.cursor(), 1);
}

#[test]
fn test_write_read_many() {
    let mut t: Turbine<TestSlot> = Turbine::new(1024);
    let e1 = t.ep_new().unwrap();

    let mut event_processor = t.ep_finalize(e1);
    let mut seen: Vec<i64> = Vec::new();

    assert!(t.current_pos() == 0);

    for i in 0u64..1000 {
        assert!(t.try_write(with_value(i as i64)).is_ok());
        if i % 7 == 0 {
            consume(&mut event_processor, &mut seen);
        }
    }
    while consume(&mut event_processor, &mut seen) > 0 {}

    assert_in_order(&seen, 1000);
}

/// Publishes `0..n`, letting the consumer take a step every `every` records
/// and whenever the producer is stalled. Returns what it saw.
fn run_single_consumer(n: u64, every: u64) -> Vec<i64> {
    let mut t: Turbine<TestSlot> = Turbine::new(1024);
    let e1 = t.ep_new().unwrap();
    let mut event_processor = t.ep_finalize(e1);
    let mut seen: Vec<i64> = Vec::new();
    let mut stalls = 0u64;

    for i in 0..n {
        let mut x = with_value(i as i64);
        loop {
            match t.try_write(x) {
                Ok(()) => break,
                Err(back) => {
                    stalls += 1;
                    assert!(consume(&mut event_processor, &mut seen) > 0);
                    x = back;
                }
            }
        }
        if i % every == 0 {
            consume(&mut event_processor, &mut seen);
        }
    }
    while consume(&mut event_processor, &mut seen) > 0 {}
    if every > 1024 {
        assert!(stalls > 0);
    }
    seen
}

#[test]
fn test_write_read_many_with_rollover() {
    let seen = run_single_consumer(1200, 13);
    assert_in_order(&seen, 1200);
}

#[test]
fn test_write_read_large() {
    let seen = run_single_consumer(50000, 5);
    assert_in_order(&seen, 50000);
}

#[test]
fn test_random_ep_pause() {
    // the consumer runs rarely, so the producer stalls and resumes repeatedly
    let seen = run_single_consumer(50000, 3001);
    assert_in_order(&seen, 50000);
}

#[test]
fn test_two_readers() {
    let mut t: Turbine<TestSlot> = Turbine::new(1024);
    let e1 = t.ep_new().unwrap();
    let e2 = t.ep_new().unwrap();

    let mut ep1 = t.ep_finalize(e1);
    let mut ep2 = t.ep_finalize(e2);
    let mut seen1: Vec<i64> = Vec::new();
    let mut seen2: Vec<i64> = Vec::new();

    for i in 0u64..1200 {
        let mut x = with_value(i as i64);
        loop {
            match t.try_write(x) {
                Ok(()) => break,
                Err(back) => {
                    consume(&mut ep1, &mut seen1);
                    consume(&mut ep2, &mut seen2);
                    x = back;
                }
            }
        }
        if i % 11 == 0 {
            consume(&mut ep1, &mut seen1);
        }
        if i % 17 == 0 {
            consume(&mut ep2, &mut seen2);
        }
    }
    while consume(&mut ep1, &mut seen1) > 0 {}
    while consume(&mut ep2, &mut seen2) > 0 {}
    assert_in_order(&seen1, 1200);
    assert_in_order(&seen2, 1200);
}

#[test]
fn test_two_readers_dependency() {
    let mut t: Turbine<TestSlot> = Turbine::new(1024);
    let e1 = t.ep_new().unwrap();
    let e2 = t.ep_new().unwrap();

    assert!(t.ep_depends(e2, e1).is_ok());

    let mut ep1 = t.ep_finalize(e1);
    let mut ep2 = t.ep_finalize(e2);
    let mut seen1: Vec<i64> = Vec::new();
    let mut seen2: Vec<i64> = Vec::new();

    for i in 0i64..1200 {
        let mut x = with_value(i);
        loop {
            match t.try_write(x) {
                Ok(()) => break,
                Err(back) => {
                    consume(&mut ep2, &mut seen2);
                    consume(&mut ep1, &mut seen1);
                    x = back;
                }
            }
        }
        // the dependent consumer polls more often than the one it follows
        consume(&mut ep2, &mut seen2);
        assert!(ep2.cursor() <= ep1.cursor());
        if i % 9 == 0 {
            consume(&mut ep1, &mut seen1);
        }
        assert!(ep2.cursor() <= ep1.cursor());
    }
    while consume(&mut ep1, &mut seen1) > 0 {}
    while consume(&mut ep2, &mut seen2) > 0 {}
    assert!(ep2.cursor() <= ep1.cursor());
    assert_in_order(&seen1, 1200);
    assert_in_order(&seen2, 1200);
}
