use abelscreensaver::options::Options;
use abelscreensaver::sequence::unspecified_media_iterator;
use abelscreensaver::walker::{DirEntryInfo, MediaWalker, split_listing};

fn opts(roots: Vec<String>, hidden: bool, video: bool) -> Options {
    let mut o = Options::with_paths(roots);
    o.hidden = hidden;
    o.video = video;
    o
}

fn touch(dir: &std::path::Path, prefix: &str, suffix: &str) -> (tempfile::NamedTempFile, String) {
    let f = tempfile::Builder::new()
        .prefix(prefix)
        .suffix(suffix)
        .rand_bytes(5)
        .tempfile_in(dir)
        .unwrap();
    let p = f.path().to_str().unwrap().to_string();
    (f, p)
}

fn collect(o: &Options) -> Vec<String> {
    let mut w = MediaWalker::new(o);
    let mut got: Vec<String> = Vec::new();
    while let Some(e) = w.next_candidate() {
        got.push(e.path);
    }
    got
}

#[test]
fn videos_excluded_when_flag_off() {
    // Three images and two videos; with videos off exactly the images
    // come out, each once.
    let root = tempfile::tempdir().unwrap();
    let mut keep = Vec::new();
    let mut images = Vec::new();
    for _ in 0..3 {
        let (f, p) = touch(root.path(), "img", ".png");
        keep.push(f);
        images.push(p);
    }
    for _ in 0..2 {
        let (f, _) = touch(root.path(), "vid", ".mp4");
        keep.push(f);
    }
    let o = opts(vec![root.path().to_str().unwrap().to_string()], false, false);
    let mut got = collect(&o);
    got.sort();
    images.sort();
    assert_eq!(got, images);
}

#[test]
fn videos_included_when_flag_on() {
    let root = tempfile::tempdir().unwrap();
    let (_f1, img) = touch(root.path(), "img", ".png");
    let (_f2, vid) = touch(root.path(), "vid", ".mkv");
    let o = opts(vec![root.path().to_str().unwrap().to_string()], false, true);
    let mut got = collect(&o);
    got.sort();
    let mut expected = vec![img, vid];
    expected.sort();
    assert_eq!(got, expected);
}

#[test]
fn svg_files_never_walk_out() {
    let root = tempfile::tempdir().unwrap();
    let (_f1, img) = touch(root.path(), "img", ".png");
    let (_f2, _svg) = touch(root.path(), "icon", ".svg");
    let o = opts(vec![root.path().to_str().unwrap().to_string()], true, true);
    assert_eq!(collect(&o), vec![img]);
}

#[test]
fn hidden_files_follow_the_flag() {
    let root = tempfile::tempdir().unwrap();
    let (_f1, visible) = touch(root.path(), "img", ".png");
    let (_f2, hidden_file) = touch(root.path(), ".img", ".png");
    let shown = opts(vec![root.path().to_str().unwrap().to_string()], false, true);
    assert_eq!(collect(&shown), vec![visible.clone()]);
    let all = opts(vec![root.path().to_str().unwrap().to_string()], true, true);
    let mut got = collect(&all);
    got.sort();
    let mut expected = vec![visible, hidden_file];
    expected.sort();
    assert_eq!(got, expected);
}

#[test]
fn hidden_directories_are_pruned_whole() {
    let root = tempfile::tempdir().unwrap();
    let sub = tempfile::Builder::new().prefix(".secret").tempdir_in(root.path()).unwrap();
    let (_f, inner) = touch(sub.path(), "img", ".png");
    let pruned = opts(vec![root.path().to_str().unwrap().to_string()], false, true);
    assert_eq!(collect(&pruned), Vec::<String>::new());
    let included = opts(vec![root.path().to_str().unwrap().to_string()], true, true);
    assert_eq!(collect(&included), vec![inner]);
}

#[test]
fn nested_directories_are_walked() {
    let root = tempfile::tempdir().unwrap();
    let sub = tempfile::Builder::new().prefix("album").tempdir_in(root.path()).unwrap();
    let deeper = tempfile::Builder::new().prefix("day").tempdir_in(sub.path()).unwrap();
    let (_f, inner) = touch(deeper.path(), "img", ".jpeg");
    let o = opts(vec![root.path().to_str().unwrap().to_string()], false, true);
    assert_eq!(collect(&o), vec![inner]);
}

#[test]
fn walker_finishes_and_stays_finished() {
    let root = tempfile::tempdir().unwrap();
    let (_f, _p) = touch(root.path(), "img", ".png");
    let o = opts(vec![root.path().to_str().unwrap().to_string()], false, true);
    let mut w = MediaWalker::new(&o);
    let mut yielded: usize = 0;
    while let Some(_e) = w.next_candidate() {
        yielded += 1;
    }
    assert_eq!(yielded, 1);
    assert!(w.next_candidate().is_none());
    assert!(w.next_candidate().is_none());
}

#[test]
fn missing_root_yields_none_immediately() {
    let o = opts(vec!["/this/path/does/not/exist".to_string()], false, true);
    let mut it = unspecified_media_iterator(o);
    assert_eq!(it.next(), None);
    assert_eq!(it.next(), None);
}

#[test]
fn empty_root_list_yields_none_immediately() {
    let o = opts(Vec::new(), false, true);
    let mut it = unspecified_media_iterator(o);
    assert_eq!(it.next(), None);
    assert_eq!(it.next(), None);
}

fn entry(path: &str, name: Option<&str>, is_file: bool, is_dir: bool) -> DirEntryInfo {
    DirEntryInfo {
        path: path.to_string(),
        file_name: name.map(|n| n.to_string()),
        is_file,
        is_dir,
    }
}

#[test]
fn split_listing_keeps_exactly_the_passing_entries() {
    let listing = vec![
        entry("/r/a.png", Some("a.png"), true, false),
        entry("/r/clip.mp4", Some("clip.mp4"), true, false),
        entry("/r/icon.svg", Some("icon.svg"), true, false),
        entry("/r/.hidden.png", Some(".hidden.png"), true, false),
        entry("/r/sub", Some("sub"), false, true),
        entry("/r/.secret", Some(".secret"), false, true),
        entry("/r/notes.txt", Some("notes.txt"), true, false),
    ];
    let (files, subdirs) = split_listing(listing, false, false);
    let got: Vec<String> = files.into_iter().map(|e| e.path).collect();
    assert_eq!(got, vec!["/r/a.png".to_string()]);
    assert_eq!(subdirs, vec!["/r/sub".to_string()]);
}

#[test]
fn split_listing_follows_the_flags() {
    let listing = vec![
        entry("/r/.hidden.png", Some(".hidden.png"), true, false),
        entry("/r/clip.mp4", Some("clip.mp4"), true, false),
        entry("/r/.secret", Some(".secret"), false, true),
    ];
    let (files, subdirs) = split_listing(listing, true, true);
    let got: Vec<String> = files.into_iter().map(|e| e.path).collect();
    assert_eq!(got, vec!["/r/.hidden.png".to_string(), "/r/clip.mp4".to_string()]);
    assert_eq!(subdirs, vec!["/r/.secret".to_string()]);
}
