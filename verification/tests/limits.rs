use proof_service::gpu::{gpu_parallelism, GpuSemaphore};
use proof_service::manager::{LoadStep, SendOutcome, TaskManager, QUEUE_CAPACITY};
use proof_service::network::NetworkProve;
use proof_service::protocol::Status;

#[test]
fn permits_run_out_and_come_back() {
    let mut semaphore = GpuSemaphore::new(2);
    assert!(semaphore.acquire());
    assert!(semaphore.acquire());
    assert!(!semaphore.acquire());
    semaphore.release();
    assert!(semaphore.acquire());
    assert!(!semaphore.acquire());
}

#[test]
fn no_more_permits_than_there_are() {
    let mut semaphore = GpuSemaphore::new(1);
    semaphore.release();
    semaphore.release();
    assert!(semaphore.acquire());
    assert!(!semaphore.acquire());
    let mut none = GpuSemaphore::new(0);
    none.release();
    assert!(!none.acquire());
}

#[test]
fn release_undoes_acquire() {
    let mut semaphore = GpuSemaphore::new(3);
    for _ in 0..10 {
        assert!(semaphore.acquire());
        semaphore.release();
    }
    assert!(semaphore.acquire());
    assert!(semaphore.acquire());
    assert!(semaphore.acquire());
    assert!(!semaphore.acquire());
}

#[test]
fn parallelism_is_at_least_one() {
    assert_eq!(gpu_parallelism(None), 1);
    assert_eq!(gpu_parallelism(Some("4")), 4);
    assert_eq!(gpu_parallelism(Some("+4")), 4);
    assert_eq!(gpu_parallelism(Some("007")), 7);
    assert_eq!(gpu_parallelism(Some("0")), 1);
    assert_eq!(gpu_parallelism(Some("")), 1);
    assert_eq!(gpu_parallelism(Some("+")), 1);
    assert_eq!(gpu_parallelism(Some("-2")), 1);
    assert_eq!(gpu_parallelism(Some(" 4")), 1);
    assert_eq!(gpu_parallelism(Some("four")), 1);
    assert_eq!(gpu_parallelism(Some("99999999999999999999999999")), 1);
}

#[test]
fn settings_of_a_proof() {
    let plain = NetworkProve::new(0, None);
    assert_eq!(plain.shard_size, None);
    assert_eq!(plain.keccak_per_shard, None);
    assert_eq!(plain.keccak_or(17), 17);
    assert_eq!(plain.timeout, None);
    let set = NetworkProve::new(65536, Some("240"));
    assert_eq!(set.shard_size, Some("65536".to_string()));
    assert_eq!(set.keccak_per_shard, Some(240));
    assert_eq!(set.keccak_or(17), 240);
    assert_eq!(NetworkProve::new(1, Some("0")).keccak_per_shard, None);
    assert_eq!(NetworkProve::new(1, Some("many")).keccak_per_shard, None);
    let default = NetworkProve::default();
    assert_eq!(default.shard_size, None);
    assert_eq!(default.keccak_per_shard, None);
}

#[test]
fn shard_size_is_read_back() {
    for n in [1u32, 10, 65536, u32::MAX] {
        let text = NetworkProve::new(n, None).shard_size.unwrap();
        assert_eq!(gpu_parallelism(Some(text.as_str())), n as usize);
    }
}

#[test]
fn terms_of_the_manager() {
    assert_eq!(TaskManager::new(None).permits, 1);
    assert_eq!(TaskManager::new(Some(8)).permits, 8);
    assert_eq!(TaskManager::new(None).queue_capacity, QUEUE_CAPACITY);
    assert_eq!(QUEUE_CAPACITY, 256);
    let query = TaskManager::new(None).backlog(1700000000);
    assert_eq!(query.status, Status::Computing);
    assert_eq!(query.now, 1700000000);
    assert_eq!(query.limit, i32::MAX);
}

fn load(found: usize, outcomes: &[SendOutcome]) -> (usize, usize) {
    let mut step = TaskManager::new(None).load_incomplete_tasks_from_db(Ok(found));
    let mut asked = 0;
    loop {
        match step {
            LoadStep::Send(work) => {
                assert_eq!(work.index(), asked);
                step = work.answer(outcomes[asked]);
                asked += 1;
            }
            LoadStep::Done(loaded) => return (loaded, asked),
            LoadStep::Fail { .. } => panic!("not loaded"),
        }
    }
}

#[test]
fn loading_stops_at_the_first_gap() {
    let sent = SendOutcome::Sent;
    assert_eq!(load(0, &[]), (0, 0));
    assert_eq!(load(3, &[sent, sent, sent]), (3, 3));
    assert_eq!(load(3, &[sent, SendOutcome::Full, sent]), (1, 2));
    assert_eq!(load(3, &[SendOutcome::Closed, sent, sent]), (0, 1));
}

#[test]
fn rows_that_cannot_be_had() {
    match TaskManager::new(None).load_incomplete_tasks_from_db(Err("no connection".to_string())) {
        LoadStep::Fail { message, cause } => {
            assert_eq!(message, "Failed to load incomplete tasks from database");
            assert_eq!(cause, "no connection");
        }
        _ => panic!("loaded"),
    }
}

#[test]
fn rows_are_queued_in_order() {
    let mut step = TaskManager::new(None).load_incomplete_tasks_from_db(Ok(4));
    let mut order = vec![];
    while let LoadStep::Send(work) = step {
        order.push(work.index());
        step = work.answer(SendOutcome::Sent);
    }
    assert_eq!(order, vec![0, 1, 2, 3]);
}
