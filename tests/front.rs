use jsvm::{is_keyword, Scope};

#[test]
fn keywords() {
    for k in ["let", "for", "while", "if", "else", "function", "return", "break", "do", "switch", "typeof", "of", "in", "const", "var", "class", "constructor"] {
        assert!(is_keyword(k));
    }
    for w in ["lets", "x", "", "Function", "continue"] {
        assert!(!is_keyword(w));
    }
}

#[test]
fn scope_lookup_through_parents() {
    let mut outer: Scope<u32> = Scope::new();
    outer.insert("a".to_string(), 1);
    outer.insert("b".to_string(), 2);
    let mut inner = Scope::with_parent(outer);
    inner.insert("b".to_string(), 20);
    assert_eq!(inner.get(&"a".to_string()), Some(&1));
    assert_eq!(inner.get(&"b".to_string()), Some(&20));
    assert_eq!(inner.get(&"c".to_string()), None);
    assert!(inner.has(&"a".to_string()));
    assert!(!inner.has(&"c".to_string()));
    *inner.get_mut(&"a".to_string()).unwrap() = 5;
    *inner.get_mut(&"b".to_string()).unwrap() = 50;
    assert_eq!(inner.get(&"a".to_string()), Some(&5));
    assert_eq!(inner.get(&"b".to_string()), Some(&50));
    assert!(inner.get_mut(&"c".to_string()).is_none());
}
