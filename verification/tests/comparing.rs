use eventwatch::event::{EventInfo, EventType};
use std::cmp::Ordering;
use std::path::PathBuf;

fn info(event: EventType, paths: &[&str]) -> EventInfo {
    EventInfo { event, paths: paths.iter().map(|p| p.as_bytes().to_vec()).collect() }
}

/// The type, and the paths as the standard library has them.
fn reference(event: EventType, paths: &[&str]) -> (EventType, Vec<PathBuf>) {
    (event, paths.iter().map(PathBuf::from).collect())
}

/// All texts of at most the given length over the alphabet.
fn words(alphabet: &[&str], length: usize) -> Vec<String> {
    let mut all = vec![String::new()];
    let mut last = all.clone();
    for _ in 0..length {
        let mut next: Vec<String> = Vec::new();
        for word in &last {
            for letter in alphabet {
                next.push(format!("{}{}", word, letter));
            }
        }
        all.extend(next.iter().cloned());
        last = next;
    }
    all
}

#[test]
fn paths_compare_like_those_of_the_standard_library() {
    let all = words(&["/", ".", "a", "-"], 4);
    for a in &all {
        for b in &all {
            let x = info(EventType::Create, &[a]);
            let y = info(EventType::Create, &[b]);
            let p = PathBuf::from(a);
            let q = PathBuf::from(b);
            assert_eq!(x == y, p == q, "{:?} {:?}", a, b);
            assert_eq!(x.partial_cmp(&y), p.partial_cmp(&q), "{:?} {:?}", a, b);
        }
    }
}

#[test]
fn lists_and_types_compare_like_derived() {
    let lists: [&[&str]; 7] = [&[], &["a"], &["a/"], &["a", "b"], &["./a"], &["b"], &["..", "a"]];
    for e in EventType::iter() {
        for f in EventType::iter() {
            for a in lists {
                for b in lists {
                    let x = info(e, a);
                    let y = info(f, b);
                    let p = reference(e, a);
                    let q = reference(f, b);
                    assert_eq!(x == y, p == q);
                    assert_eq!(x.partial_cmp(&y), p.partial_cmp(&q));
                }
            }
        }
    }
}

#[test]
fn redundant_parts_of_paths_do_not_matter() {
    let plain = info(EventType::Modify, &["a/b"]);
    for same in ["a//b", "a/./b", "a/b/", "a/b/.", "a/b//./"] {
        assert_eq!(plain, info(EventType::Modify, &[same]));
    }
    for other in ["./a/b", "/a/b", "a/../a/b", "a/b/c", "a", "A/b"] {
        assert_ne!(plain, info(EventType::Modify, &[other]));
    }
    assert_ne!(plain, info(EventType::Create, &["a/b"]));
}

#[test]
fn order_of_components() {
    let paths = ["/z", "./z", "../z", "-", "a", "a/b", "b"];
    for (i, a) in paths.iter().enumerate() {
        for (j, b) in paths.iter().enumerate() {
            let x = info(EventType::Move, &[a]);
            let y = info(EventType::Move, &[b]);
            assert_eq!(x.partial_cmp(&y), Some(i.cmp(&j)));
        }
    }
    let x = info(EventType::Access, &["b"]);
    let y = info(EventType::Delete, &["a"]);
    assert_eq!(x.partial_cmp(&y), Some(Ordering::Less));
    assert!(x < y);
}

#[test]
fn names_need_not_be_text_to_compare() {
    let bytes = |path: &[u8]| EventInfo { event: EventType::Move, paths: vec![path.to_vec()] };
    assert_eq!(bytes(b"\xff//x"), bytes(b"\xff/x/"));
    assert!(bytes(b"\xfe") < bytes(b"\xff"));
}
