use same_alerter::chunk::{chunk_message, FRAGMENT_LIMIT};

fn v(s: &str) -> Vec<u8> {
    s.as_bytes().to_vec()
}

fn rejoin(frags: &[Vec<u8>]) -> Vec<u8> {
    let mut out: Vec<u8> = Vec::new();
    for (i, f) in frags.iter().enumerate() {
        if i > 0 {
            out.push(b' ');
        }
        out.extend_from_slice(f);
    }
    out
}

#[test]
fn short_message_is_one_fragment() {
    let msg = v("a short alert message");
    let frags = chunk_message(&msg);
    assert_eq!(frags.len(), 1);
    assert_eq!(frags[0], msg);
}

#[test]
fn empty_message_has_no_fragments() {
    let frags = chunk_message(&v(""));
    assert!(frags.is_empty());
}

#[test]
fn exact_limit_is_not_split() {
    let word = "x".repeat(35);
    let msg = v(&format!("{} {} abc", word, word));
    assert_eq!(msg.len(), FRAGMENT_LIMIT);
    let frags = chunk_message(&msg);
    assert_eq!(frags.len(), 1);
    assert_eq!(frags[0], msg);
}

#[test]
fn ten_words_split_at_last_fitting_space() {
    let words: Vec<String> = (0..10).map(|_| "0123456789".to_string()).collect();
    let msg = v(&words.join(" "));
    assert_eq!(msg.len(), 109);
    let frags = chunk_message(&msg);
    assert_eq!(frags.len(), 2);
    assert_eq!(frags[0], v(&words[..6].join(" ")));
    assert_eq!(frags[1], v(&words[6..].join(" ")));
    assert_eq!(frags[0].len(), 65);
    assert_eq!(frags[1].len(), 43);
}

#[test]
fn rejoining_fragments_reproduces_the_message() {
    let samples = [
        "".to_string(),
        "one".to_string(),
        "a b".to_string(),
        "word ".repeat(40),
        format!("alpha  {}  omega", "y".repeat(100)),
        "z".repeat(200),
        format!(" {}", "w".repeat(90)),
    ];
    for s in samples.iter() {
        let msg = v(s);
        let frags = chunk_message(&msg);
        assert_eq!(rejoin(&frags), msg, "lossless split of {:?}", s);
    }
}

#[test]
fn fragments_respect_the_budget_unless_one_word() {
    let msg = v(&format!("start {} end of the message", "q".repeat(120)));
    let frags = chunk_message(&msg);
    for f in frags.iter() {
        assert!(f.len() <= FRAGMENT_LIMIT || !f.contains(&b' '));
    }
    assert_eq!(rejoin(&frags), msg);
}

#[test]
fn oversized_single_word_travels_whole() {
    let msg = v(&"x".repeat(80));
    let frags = chunk_message(&msg);
    assert_eq!(frags.len(), 1);
    assert_eq!(frags[0], msg);
}

#[test]
fn leading_words_split_before_oversized_word() {
    let long = "x".repeat(80);
    let msg = v(&format!("aa {}", long));
    let frags = chunk_message(&msg);
    assert_eq!(frags.len(), 2);
    assert_eq!(frags[0], v("aa"));
    assert_eq!(frags[1], v(&long));
}
