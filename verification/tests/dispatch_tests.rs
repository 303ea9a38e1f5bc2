use zed_util::dispatch::{handle_messages, MessageHandler, RecordingHandler};

#[test]
fn every_message_is_handled_once_in_order() {
    let mut handler = RecordingHandler::new(vec![]);
    let outcomes = handle_messages(&mut handler, &vec![5, 1, 4, 1]);
    assert_eq!(handler.seen, vec![5, 1, 4, 1]);
    assert_eq!(outcomes, vec![true, true, true, true]);
}

#[test]
fn failure_does_not_stop_the_loop() {
    let mut handler = RecordingHandler::new(vec![2]);
    let outcomes = handle_messages(&mut handler, &vec![1, 2, 3, 2, 4]);
    assert_eq!(handler.seen, vec![1, 2, 3, 2, 4]);
    assert_eq!(outcomes, vec![true, false, true, false, true]);
}

#[test]
fn empty_batch_invokes_nothing() {
    let mut handler = RecordingHandler::new(vec![7]);
    let outcomes = handle_messages(&mut handler, &vec![]);
    assert_eq!(handler.seen, vec![] as Vec<u64>);
    assert_eq!(outcomes, vec![] as Vec<bool>);
}

#[test]
fn handle_reports_failure_with_message() {
    let mut handler = RecordingHandler::new(vec![9]);
    assert!(handler.handle(3).is_ok());
    let err = handler.handle(9).unwrap_err();
    assert!(!err.is_empty());
    assert_eq!(handler.seen, vec![3, 9]);
}
