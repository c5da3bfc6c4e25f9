use thunderboard_sltb001a::mailbox::Mailbox;

#[test]
fn second_enqueue_fails_and_returns_the_item() {
    let mut m: Mailbox<String> = Mailbox::new();
    assert!(m.enqueue("first".to_string()).is_ok());
    assert_eq!(m.enqueue("second".to_string()), Err("second".to_string()));
    assert_eq!(m.dequeue(), Some("first".to_string()));
}

#[test]
fn dequeue_on_empty_mailbox_is_idempotent() {
    let mut m: Mailbox<u32> = Mailbox::new();
    assert!(m.is_empty());
    assert_eq!(m.dequeue(), None);
    assert_eq!(m.dequeue(), None);
    assert!(m.is_empty());
}

#[test]
fn mailbox_takes_an_item_again_after_dequeue() {
    let mut m: Mailbox<u32> = Mailbox::new();
    assert_eq!(m.enqueue(7), Ok(()));
    assert!(!m.is_empty());
    assert_eq!(m.dequeue(), Some(7));
    assert_eq!(m.dequeue(), None);
    assert_eq!(m.enqueue(8), Ok(()));
    assert_eq!(m.dequeue(), Some(8));
}
