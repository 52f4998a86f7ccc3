use ato::{Error, Poll, Spawner, TaskHandle};

fn spawner_with<const N: usize>(ids: &[u32]) -> Spawner<u32, N> {
    let mut s: Spawner<u32, N> = Spawner::new();
    for id in ids {
        s.spawn(TaskHandle::new(*id)).unwrap();
    }
    s
}

#[test]
fn tasks_are_taken_in_spawn_order() {
    let mut s = spawner_with::<4>(&[7, 8, 9]);
    assert_eq!(s.next_task(), Some(7));
    assert_eq!(s.next_task(), Some(8));
    assert_eq!(s.next_task(), Some(9));
    assert_eq!(s.next_task(), None);
}

#[test]
fn spawn_fails_exactly_when_full() {
    let mut s = spawner_with::<2>(&[1, 2]);
    assert_eq!(s.spawn(TaskHandle::new(3)), Err(Error::TaskQueueFail));
    assert_eq!(s.next_task(), Some(1));
    assert_eq!(s.spawn(TaskHandle::new(3)), Ok(()));
    assert_eq!(s.next_task(), Some(2));
    assert_eq!(s.next_task(), Some(3));
}

#[test]
fn pending_task_goes_to_the_back() {
    let mut s = spawner_with::<4>(&[1, 2, 3]);
    let t = s.next_task().unwrap();
    assert_eq!(t, 1);
    assert_eq!(s.complete_poll(t, Poll::Pending), Ok(()));
    assert_eq!(s.next_task(), Some(2));
    assert_eq!(s.next_task(), Some(3));
    assert_eq!(s.next_task(), Some(1));
}

#[test]
fn ready_task_leaves_the_queue() {
    let mut s = spawner_with::<4>(&[1, 2]);
    let t = s.next_task().unwrap();
    assert_eq!(s.complete_poll(t, Poll::Ready), Ok(()));
    assert_eq!(s.next_task(), Some(2));
    assert_eq!(s.next_task(), None);
}

#[test]
fn requeue_fails_when_a_spawn_took_the_slot() {
    let mut s = spawner_with::<2>(&[1, 2]);
    let t = s.next_task().unwrap();
    s.spawn(TaskHandle::new(3)).unwrap();
    assert_eq!(s.complete_poll(t, Poll::Pending), Err(Error::TaskQueueFail));
    assert_eq!(s.next_task(), Some(2));
    assert_eq!(s.next_task(), Some(3));
    assert_eq!(s.next_task(), None);
}

#[test]
fn full_pending_round_restores_order() {
    let mut s = spawner_with::<4>(&[4, 5, 6]);
    for _ in 0..3 {
        let t = s.next_task().unwrap();
        assert_eq!(s.complete_poll(t, Poll::Pending), Ok(()));
    }
    assert_eq!(s.next_task(), Some(4));
    assert_eq!(s.next_task(), Some(5));
    assert_eq!(s.next_task(), Some(6));
    assert_eq!(s.next_task(), None);
}

#[test]
fn next_task_on_empty_spawner_changes_nothing() {
    let mut s: Spawner<u32, 2> = Spawner::new();
    assert_eq!(s.next_task(), None);
    assert_eq!(s.next_task(), None);
}

#[test]
fn task_handle_carries_its_task() {
    let h = TaskHandle::new(String::from("job"));
    assert_eq!(h.into_inner(), "job");
}

#[test]
fn steps_one_at_a_time_match_a_run_to_completion() {
    // Outcomes: task 1 pending, task 2 ready, task 1 ready.
    let mut s = spawner_with::<2>(&[1, 2]);
    let outcomes = [Poll::Pending, Poll::Ready, Poll::Ready];
    let mut polled = Vec::new();
    for o in outcomes {
        let t = s.next_task().unwrap();
        polled.push(t);
        assert_eq!(s.complete_poll(t, o), Ok(()));
    }
    assert_eq!(polled, vec![1, 2, 1]);
    assert_eq!(s.next_task(), None);
}

#[test]
fn requeue_right_after_taking_never_fails() {
    let mut s = spawner_with::<2>(&[1, 2]);
    for _ in 0..10 {
        let t = s.next_task().unwrap();
        assert_eq!(s.complete_poll(t, Poll::Pending), Ok(()));
    }
    assert_eq!(s.next_task(), Some(1));
}
