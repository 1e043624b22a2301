use embed_gateway::backend::BackendError;
use embed_gateway::queue::Queue;
use embed_gateway::types::EmbedResponse;

fn texts(words: &[&str]) -> Vec<String> {
    words.iter().map(|w| w.to_string()).collect()
}

fn ok_response(vectors: Vec<Vec<u32>>) -> Result<EmbedResponse, BackendError> {
    Ok(EmbedResponse::from_vectors(vectors, "model".to_string()))
}

#[test]
fn new_clamps_workers_to_one() {
    let q = Queue::new(0, 4);
    assert_eq!(q.worker_count, 1);
    assert_eq!(q.running.len(), 1);
    assert_eq!(q.capacity, 4);
    assert!(q.accepting);
}

#[test]
fn enqueue_fills_buffer_then_waiting() {
    // Two workers, buffer of three: seven submissions all succeed; three sit
    // in the buffer, four wait behind it, none is refused or dropped.
    let mut q = Queue::new(2, 3);
    for n in 0..7u64 {
        let id = q.enqueue(texts(&["t"]), false, 8).expect("open queue accepts");
        assert_eq!(id, n);
    }
    assert_eq!(q.queued.len(), 3);
    assert_eq!(q.waiting.len(), 4);
    // Admitted-but-unfinished work never exceeds capacity + workers.
    let busy = q.running.iter().filter(|s| s.is_some()).count();
    assert!(q.queued.len() + busy <= q.capacity + q.worker_count);
}

#[test]
fn claim_is_fifo_and_refills_from_waiting() {
    let mut q = Queue::new(2, 1);
    for _ in 0..4 {
        q.enqueue(texts(&["t"]), false, 8).unwrap();
    }
    assert_eq!(q.queued.len(), 1);
    assert_eq!(q.waiting.len(), 3);

    let first = q.claim(0).expect("job pending");
    assert_eq!(first.id, 0);
    // The freed buffer slot admits the first waiting submission.
    assert_eq!(q.queued.len(), 1);
    assert_eq!(q.queued[0].id, 1);
    assert_eq!(q.waiting.len(), 2);

    let second = q.claim(1).expect("job pending");
    assert_eq!(second.id, 1);
    assert_eq!(q.running[0], Some(0));
    assert_eq!(q.running[1], Some(1));
}

#[test]
fn at_most_worker_count_jobs_in_flight() {
    // A burst larger than the pool: only worker_count jobs are ever claimed
    // at once, since each claim needs an idle slot.
    let mut q = Queue::new(2, 10);
    for _ in 0..6 {
        q.enqueue(texts(&["t"]), false, 8).unwrap();
    }
    q.claim(0).unwrap();
    q.claim(1).unwrap();
    let busy = q.running.iter().filter(|s| s.is_some()).count();
    assert_eq!(busy, 2);
    assert!(busy <= q.worker_count);
    assert_eq!(q.queued.len() + q.waiting.len(), 4);
}

#[test]
fn rendezvous_with_zero_capacity_single_worker() {
    // One worker, no buffer: the second submission stays suspended until the
    // first job's backend call completes and the worker claims again.
    let mut q = Queue::new(1, 0);
    let first = q.enqueue(texts(&["a"]), false, 1).unwrap();
    let second = q.enqueue(texts(&["b"]), false, 1).unwrap();
    assert_eq!(q.waiting.len(), 2);

    let job = q.claim(0).expect("rendezvous hand-off");
    assert_eq!(job.id, first);
    // The worker is busy and the buffer bound is zero, so the second
    // submission is still suspended.
    assert_eq!(q.waiting.len(), 1);
    assert_eq!(q.waiting[0].id, second);

    q.complete(0, job.id, ok_response(vec![vec![0]]));
    assert_eq!(q.delivered.len(), 1);
    assert_eq!(q.delivered[0].id, first);

    let job2 = q.claim(0).expect("second job only after the first finished");
    assert_eq!(job2.id, second);
    assert_eq!(q.waiting.len(), 0);
}

#[test]
fn backend_failure_is_relayed_and_queue_stays_usable() {
    // A backend that answers every input with a status error: the submitter
    // receives that error, and the dispatcher keeps serving.
    let mut q = Queue::new(1, 4);
    let id = q.enqueue(texts(&["a", "b"]), false, 8).unwrap();
    let job = q.claim(0).unwrap();
    assert_eq!(job.texts, texts(&["a", "b"]));
    q.complete(0, job.id, Err(BackendError::Status(500)));
    assert_eq!(q.delivered.len(), 1);
    assert_eq!(q.delivered[0].id, id);
    assert!(matches!(q.delivered[0].outcome, Err(BackendError::Status(500))));

    // Still usable afterwards.
    let id2 = q.enqueue(texts(&["c"]), false, 8).unwrap();
    let job2 = q.claim(0).unwrap();
    q.complete(0, job2.id, ok_response(vec![vec![7]]));
    assert_eq!(q.delivered.len(), 2);
    assert_eq!(q.delivered[1].id, id2);
    assert!(q.delivered[1].outcome.is_ok());
}

#[test]
fn each_job_is_answered_exactly_once() {
    let mut q = Queue::new(2, 2);
    let mut ids = Vec::new();
    for _ in 0..5 {
        ids.push(q.enqueue(texts(&["t"]), true, 4).unwrap());
    }
    while let Some(job) = q.claim(0) {
        q.complete(0, job.id, ok_response(vec![vec![1, 2]]));
    }
    assert_eq!(q.delivered.len(), 5);
    for id in ids {
        let answers = q.delivered.iter().filter(|d| d.id == id).count();
        assert_eq!(answers, 1);
    }
}

#[test]
fn shutdown_answers_unclaimed_jobs_with_queue_closed() {
    // A job queued but unclaimed at shutdown: its pending submission
    // resolves with the closed-queue failure.
    let mut q = Queue::new(1, 2);
    let queued_id = q.enqueue(texts(&["a"]), false, 1).unwrap();
    let claimed = q.claim(0).unwrap();
    assert_eq!(claimed.id, queued_id);
    let unclaimed_id = q.enqueue(texts(&["b"]), false, 1).unwrap();

    q.shutdown();
    assert!(!q.accepting);
    assert_eq!(q.queued.len(), 0);
    assert_eq!(q.waiting.len(), 0);
    assert_eq!(q.delivered.len(), 1);
    assert_eq!(q.delivered[0].id, unclaimed_id);
    assert!(matches!(q.delivered[0].outcome, Err(BackendError::QueueClosed)));

    // The claimed job drains: its worker still delivers normally.
    q.complete(0, claimed.id, ok_response(vec![vec![3]]));
    assert_eq!(q.delivered.len(), 2);
    assert_eq!(q.delivered[1].id, queued_id);
    assert!(q.delivered[1].outcome.is_ok());

    // New submissions are refused outright.
    let refused = q.enqueue(texts(&["c"]), false, 1);
    assert!(matches!(refused, Err(BackendError::QueueClosed)));
}

#[test]
fn shutdown_answers_in_admission_order() {
    let mut q = Queue::new(1, 1);
    let a = q.enqueue(texts(&["a"]), false, 1).unwrap();
    let b = q.enqueue(texts(&["b"]), false, 1).unwrap();
    let c = q.enqueue(texts(&["c"]), false, 1).unwrap();
    q.shutdown();
    let ids: Vec<u64> = q.delivered.iter().map(|d| d.id).collect();
    assert_eq!(ids, vec![a, b, c]);
    assert!(q.delivered.iter().all(|d| matches!(d.outcome, Err(BackendError::QueueClosed))));
}
