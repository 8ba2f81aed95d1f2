use wordle::pool::EmptyPoolError;
use wordle::pool::WordPool;

fn pool_of(words: &[&str]) -> WordPool {
    let v: Vec<String> = words.iter().map(|w| w.to_string()).collect();
    WordPool::new(v)
}

#[test]
fn pool_keeps_only_words_of_secret_length() {
    let p = pool_of(&["hi", "crane", "toasts", "", "track", "a"]);
    assert_eq!(p.len(), 2);
    assert_eq!(p.words[0], "crane");
    assert_eq!(p.words[1], "track");
}

#[test]
fn select_from_empty_pool_fails() {
    let p = pool_of(&[]);
    assert_eq!(p.select(), Err(EmptyPoolError));
    let q = pool_of(&["hi", "toolong"]);
    assert_eq!(q.select(), Err(EmptyPoolError));
}

#[test]
fn select_returns_a_pool_member() {
    let single = pool_of(&["crane"]);
    assert_eq!(single.select(), Ok("crane".to_string()));
    assert_eq!(single.select(), Ok("crane".to_string()));

    let two = pool_of(&["crane", "toast"]);
    for _ in 0..20 {
        let w = two.select().unwrap();
        assert!(w == "crane" || w == "toast");
    }
}
