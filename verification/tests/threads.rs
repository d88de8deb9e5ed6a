use ziliwebka::threads::JobQueue;
use ziliwebka::threads::Message;

#[test]
fn pool_of_three_runs_a_hundred_jobs_once_each() {
    let mut queue: JobQueue<usize> = JobQueue::new(3);
    for job in 0..100 {
        assert_eq!(queue.execute(job), Ok(()));
    }
    assert_eq!(queue.len(), 100);
    queue.shutdown();
    assert_eq!(queue.len(), 103);
    let mut ran = vec![0usize; 100];
    let mut order = Vec::new();
    let mut ended = 0;
    while let Some(message) = queue.take() {
        match message {
            Message::NewJob(job) => {
                assert_eq!(ended, 0);
                ran[job] += 1;
                order.push(job);
            }
            Message::Terminate => ended += 1,
        }
    }
    assert!(ran.iter().all(|count| *count == 1));
    assert_eq!(order, (0..100).collect::<Vec<usize>>());
    assert_eq!(ended, 3);
    assert_eq!(queue.workers(), 0);
    assert_eq!(queue.len(), 0);
    assert_eq!(queue.take(), None);
}

#[test]
fn jobs_leave_in_the_order_in_which_they_came() {
    let mut queue: JobQueue<&str> = JobQueue::new(1);
    assert_eq!(queue.take(), None);
    queue.execute("a").unwrap();
    queue.execute("b").unwrap();
    assert_eq!(queue.take(), Some(Message::NewJob("a")));
    queue.execute("c").unwrap();
    assert_eq!(queue.take(), Some(Message::NewJob("b")));
    assert_eq!(queue.take(), Some(Message::NewJob("c")));
    assert_eq!(queue.take(), None);
    assert_eq!(queue.workers(), 1);
}

#[test]
fn job_submitted_after_the_shutdown_is_handed_back() {
    let mut queue: JobQueue<u8> = JobQueue::new(2);
    queue.execute(1).unwrap();
    assert!(!queue.is_closing());
    queue.shutdown();
    assert!(queue.is_closing());
    assert_eq!(queue.execute(2), Err(2));
    assert_eq!(queue.len(), 3);
    assert_eq!(queue.take(), Some(Message::NewJob(1)));
    assert_eq!(queue.take(), Some(Message::Terminate));
    assert_eq!(queue.workers(), 1);
    assert_eq!(queue.take(), Some(Message::Terminate));
    assert_eq!(queue.workers(), 0);
    assert_eq!(queue.take(), None);
}

#[test]
fn second_shutdown_changes_nothing() {
    let mut queue: JobQueue<u8> = JobQueue::new(4);
    queue.shutdown();
    queue.shutdown();
    assert_eq!(queue.len(), 4);
    assert_eq!(queue.workers(), 4);
    assert_eq!(queue.take(), Some(Message::Terminate));
    queue.shutdown();
    assert_eq!(queue.len(), 3);
    assert_eq!(queue.workers(), 3);
}
