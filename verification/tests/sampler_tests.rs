use abelscreensaver::sampler::{HandoffOutcome, Sampler, WINDOW_CAPACITY};
use std::sync::mpsc::sync_channel;

fn path(i: usize) -> String {
    format!("/media/file{i}.png")
}

#[test]
fn draws_start_only_after_window_overflows() {
    // Twelve candidates against a window of ten: the first two draws
    // happen only once the eleventh and twelfth candidates arrive, and in
    // the end the delivered set equals the accepted set.
    let (tx, rx) = sync_channel::<String>(64);
    let mut s = Sampler::new();
    let mut draws: usize = 0;
    for i in 0..12 {
        s.accept(path(i));
        while s.window_len() > WINDOW_CAPACITY {
            let p = s.draw(0);
            draws += 1;
            s.hold(p);
            assert_eq!(s.offer(&tx), HandoffOutcome::Delivered);
        }
        if i < WINDOW_CAPACITY {
            assert_eq!(draws, 0);
        }
    }
    assert_eq!(draws, 2);
    while s.window_len() > 0 {
        let p = s.draw(0);
        s.hold(p);
        assert_eq!(s.offer(&tx), HandoffOutcome::Delivered);
    }
    drop(tx);
    let mut got: Vec<String> = rx.iter().collect();
    let mut expected: Vec<String> = (0..12).map(path).collect();
    got.sort();
    expected.sort();
    // Membership equality and no duplicates, whatever the draw order.
    assert_eq!(got, expected);
}

#[test]
fn window_never_exceeds_capacity_plus_one() {
    let (tx, _rx) = sync_channel::<String>(128);
    let mut s = Sampler::new();
    for i in 0..100 {
        s.accept(path(i));
        assert!(s.window_len() <= WINDOW_CAPACITY + 1);
        while s.window_len() > WINDOW_CAPACITY {
            let p = s.draw(0);
            s.hold(p);
            assert_eq!(s.offer(&tx), HandoffOutcome::Delivered);
        }
        assert!(s.window_len() <= WINDOW_CAPACITY);
    }
    drop(tx);
}

#[test]
fn rejected_candidate_never_delivered_and_is_replaced() {
    // A candidate that fails validation is discarded and a different,
    // valid one from the window fills its slot.
    let (tx, rx) = sync_channel::<String>(4);
    let mut s = Sampler::new();
    s.accept("/a/corrupt.png".to_string());
    s.accept("/a/good.png".to_string());
    let bad = s.draw(0);
    assert_eq!(bad, "/a/corrupt.png".to_string());
    s.reject(bad.clone());
    let good = s.draw(0);
    s.hold(good.clone());
    assert_eq!(s.offer(&tx), HandoffOutcome::Delivered);
    drop(tx);
    let got: Vec<String> = rx.iter().collect();
    assert_eq!(got, vec![good]);
    assert_ne!(got[0], bad);
}

#[test]
fn full_channel_parks_the_candidate_for_retry() {
    let (tx, rx) = sync_channel::<String>(1);
    let mut s = Sampler::new();
    s.accept(path(1));
    s.accept(path(2));
    let first = s.draw(0);
    s.hold(first);
    assert_eq!(s.offer(&tx), HandoffOutcome::Delivered);
    let second = s.draw(0);
    s.hold(second.clone());
    // The single-slot buffer is full: the candidate stays parked.
    assert_eq!(s.offer(&tx), HandoffOutcome::ChannelFull);
    assert!(s.has_reserved());
    // Once the consumer pulls, the retry goes through.
    let _ = rx.recv().unwrap();
    assert_eq!(s.offer(&tx), HandoffOutcome::Delivered);
    assert!(!s.has_reserved());
    assert_eq!(rx.recv().unwrap(), second);
}

#[test]
fn gone_consumer_is_reported() {
    let (tx, rx) = sync_channel::<String>(1);
    drop(rx);
    let mut s = Sampler::new();
    s.accept(path(7));
    let p = s.draw(0);
    s.hold(p);
    assert_eq!(s.offer(&tx), HandoffOutcome::ConsumerGone);
    assert!(s.has_reserved());
    assert!(!s.offer_blocking(&tx));
}
