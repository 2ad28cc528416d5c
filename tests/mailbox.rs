use wgpu_egui_tokio::channel::{Mailbox, TryRecvError, TrySendError};
use wgpu_egui_tokio::page::Pages;
use wgpu_egui_tokio::state::SurfaceSize;

#[test]
fn messages_arrive_in_send_order() {
    let mut mb = Mailbox::new(2);
    assert!(mb.try_send(1u32).is_ok());
    assert!(mb.try_send(2).is_ok());
    assert_eq!(mb.try_recv(), Ok(1));
    assert!(mb.try_send(3).is_ok());
    assert_eq!(mb.try_recv(), Ok(2));
    assert_eq!(mb.try_recv(), Ok(3));
    assert_eq!(mb.try_recv(), Err(TryRecvError::Empty));
}

#[test]
fn send_beyond_capacity_fails() {
    let mut mb = Mailbox::new(1);
    assert!(mb.try_send("first").is_ok());
    match mb.try_send("second") {
        Err(TrySendError::Full(m)) => assert_eq!(m, "second"),
        _ => panic!("expected a full mailbox"),
    }
    assert_eq!(mb.len(), 1);
    assert_eq!(mb.try_recv(), Ok("first"));
    assert!(mb.try_send("third").is_ok());
}

#[test]
fn closed_receiver_refuses_sends() {
    let mut mb = Mailbox::new(1);
    mb.close();
    match mb.try_send(9u8) {
        Err(TrySendError::Closed(m)) => assert_eq!(m, 9),
        _ => panic!("expected a closed mailbox"),
    }
}

#[test]
fn dropping_all_senders_disconnects_after_drain() {
    let mut mb = Mailbox::new(1);
    mb.add_sender();
    assert!(mb.try_send(4u8).is_ok());
    mb.drop_sender();
    assert!(!mb.is_disconnected());
    mb.drop_sender();
    assert!(mb.is_disconnected());
    assert_eq!(mb.try_recv(), Ok(4));
    assert_eq!(mb.try_recv(), Err(TryRecvError::Disconnected));
}

#[test]
fn message_applies_to_inactive_page() {
    let mut pages: Pages<u32, std::cell::Cell<u32>> = Pages::new();
    pages.register("A".to_string(), 1);
    pages.register("B".to_string(), 2);
    pages.instantiate_all(|f| Some(std::cell::Cell::new(f)));
    let mut a_mailbox = Mailbox::new(1);
    assert!(pages.select(&"A".to_string()));
    assert!(pages.select(&"B".to_string()));
    assert!(a_mailbox.try_send(40u32).is_ok());
    let m = a_mailbox.try_recv().unwrap();
    let i = pages.page_names().iter().position(|n| n == "A").unwrap();
    pages.entries()[i].set(m);
    assert_eq!(pages.entries()[i].get(), 40);
    assert_eq!(pages.current(), "B");
    assert_eq!(pages.active_entry().unwrap().get(), 2);
}

#[test]
fn resize_same_size_twice_is_once() {
    let mut once = SurfaceSize::new(10, 10);
    once.resize(800, 600);
    let mut twice = once;
    twice.resize(800, 600);
    assert_eq!(once, twice);
    assert_eq!(twice, SurfaceSize { width: 800, height: 600 });
}

#[test]
fn resize_to_zero_keeps_one_pixel() {
    let mut s = SurfaceSize::new(0, 0);
    assert_eq!(s, SurfaceSize { width: 1, height: 1 });
    s.resize(0, 300);
    assert_eq!(s, SurfaceSize { width: 1, height: 300 });
}
