use abelscreensaver::options::Options;
use abelscreensaver::sequence::{
    MediaSequence, ProducerEnd, RandomMediaIterator, populate, run_producer,
    unspecified_media_iterator,
};
use abelscreensaver::walker::MediaWalker;
use std::sync::mpsc::sync_channel;

#[test]
fn random_iterator_drains_channel_then_stays_none() {
    let (tx, rx) = sync_channel::<String>(8);
    tx.send("/m/a.png".to_string()).unwrap();
    tx.send("/m/b.png".to_string()).unwrap();
    drop(tx);
    let mut it = RandomMediaIterator::from_receiver(rx);
    assert_eq!(it.next(), Some("/m/a.png".to_string()));
    assert_eq!(it.next(), Some("/m/b.png".to_string()));
    assert_eq!(it.next(), None);
    assert_eq!(it.next(), None);
}

#[test]
fn media_sequence_terminates_idempotently() {
    let o = Options::with_paths(Vec::new());
    let mut sequence = MediaSequence::Unspecified(unspecified_media_iterator(o));
    assert_eq!(sequence.next(), None);
    assert_eq!(sequence.next(), None);
    assert_eq!(sequence.next(), None);
}

#[test]
fn populate_on_missing_root_closes_channel() {
    let (tx, rx) = sync_channel::<String>(8);
    let o = Options::with_paths(vec!["/no/such/root/anywhere".to_string()]);
    let (end, s) = populate(o, tx);
    assert_eq!(end, ProducerEnd::Exhausted);
    assert_eq!(s.window_len(), 0);
    assert!(!s.has_reserved());
    assert!(rx.recv().is_err());
}

#[test]
fn populate_with_no_roots_closes_channel() {
    let (tx, rx) = sync_channel::<String>(8);
    let (end, _s) = populate(Options::with_paths(Vec::new()), tx);
    assert_eq!(end, ProducerEnd::Exhausted);
    assert!(rx.recv().is_err());
}

#[test]
fn populate_only_hands_over_files_from_the_tree() {
    // The files are not real media, so the prober may reject any of
    // them; whatever does come out must come from the tree, each path at
    // most once, and the producer must terminate and close the channel.
    let root = tempfile::tempdir().unwrap();
    let mut keep = Vec::new();
    let mut created = Vec::new();
    for _ in 0..3 {
        let f = tempfile::Builder::new()
            .prefix("img")
            .suffix(".png")
            .rand_bytes(5)
            .tempfile_in(root.path())
            .unwrap();
        created.push(f.path().to_str().unwrap().to_string());
        keep.push(f);
    }
    let (tx, rx) = sync_channel::<String>(32);
    let o = Options::with_paths(vec![root.path().to_str().unwrap().to_string()]);
    let (end, _s) = populate(o, tx);
    assert_eq!(end, ProducerEnd::Exhausted);
    let mut got: Vec<String> = rx.iter().collect();
    got.sort();
    for w in got.windows(2) {
        assert_ne!(w[0], w[1]);
    }
    for p in &got {
        assert!(created.contains(p));
    }
}

#[test]
fn producer_drains_window_and_reserved_slot() {
    let root = tempfile::tempdir().unwrap();
    let mut keep = Vec::new();
    for _ in 0..4 {
        keep.push(
            tempfile::Builder::new()
                .prefix("img")
                .suffix(".png")
                .rand_bytes(5)
                .tempfile_in(root.path())
                .unwrap(),
        );
    }
    let (tx, _rx) = sync_channel::<String>(32);
    let o = Options::with_paths(vec![root.path().to_str().unwrap().to_string()]);
    let mut w = MediaWalker::new(&o);
    let (end, s) = run_producer(&mut w, &tx);
    assert_eq!(end, ProducerEnd::Exhausted);
    assert_eq!(s.window_len(), 0);
    assert!(!s.has_reserved());
}
