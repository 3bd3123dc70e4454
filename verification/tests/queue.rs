use hiroz::common::{DataHandler, HandlerAction};
use hiroz::queue::BoundedQueue;

fn contents(queue: &mut BoundedQueue<i32>) -> Vec<i32> {
    let mut all = Vec::new();
    while let Some(x) = queue.try_recv() {
        all.push(x);
    }
    all
}

#[test]
fn the_oldest_item_makes_room() {
    let mut queue = BoundedQueue::new(3);
    assert!(queue.is_empty());
    let dropped: Vec<bool> = (1..6).map(|i| queue.push(i)).collect();
    assert_eq!(dropped, vec![false, false, false, true, true]);
    assert_eq!(queue.len(), 3);
    assert_eq!(contents(&mut queue), vec![3, 4, 5]);
    assert_eq!(queue.try_recv(), None);
}

#[test]
fn a_queue_always_has_room_for_one() {
    let mut queue = BoundedQueue::new(0);
    assert!(!queue.push(1));
    assert!(queue.push(2));
    assert_eq!(contents(&mut queue), vec![2]);
}

#[test]
fn handlers_store_call_or_tell() {
    let mut stored = DataHandler::Queue(BoundedQueue::new(1));
    assert!(!stored.runs_user_code());
    assert!(matches!(
        stored.handle(1),
        HandlerAction::Stored { dropped: false }
    ));
    assert!(matches!(
        stored.handle(2),
        HandlerAction::Stored { dropped: true }
    ));
    let mut called: DataHandler<i32> = DataHandler::Callback;
    assert!(called.runs_user_code());
    assert!(matches!(called.handle(3), HandlerAction::Call(3)));
    let mut told = DataHandler::QueueWithNotifier(BoundedQueue::new(1));
    assert!(!told.runs_user_code());
    assert!(matches!(
        told.handle(4),
        HandlerAction::Notify { dropped: false }
    ));
    match told {
        DataHandler::QueueWithNotifier(mut queue) => assert_eq!(contents(&mut queue), vec![4]),
        _ => panic!("the handler changed"),
    }
}
