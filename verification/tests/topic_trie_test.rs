use tokio_events::topic_trie::TopicTrie;
use uuid::Uuid;

#[test]
fn test_topic_trie_matching() {
    let mut trie = TopicTrie::new();

    let id_exact = Uuid::new_v4().as_u128();
    let id_any = Uuid::new_v4().as_u128();
    let id_trailing = Uuid::new_v4().as_u128();

    trie.insert("orders.us.created", id_exact);
    trie.insert("orders.*.created", id_any);
    trie.insert("orders.>", id_trailing);

    let matches = trie.match_topic("orders.us.created");
    assert!(matches.contains(&id_exact));
    assert!(matches.contains(&id_any));
    assert!(matches.contains(&id_trailing));

    let matches2 = trie.match_topic("orders.eu.created");
    assert!(!matches2.contains(&id_exact));
    assert!(matches2.contains(&id_any));
    assert!(matches2.contains(&id_trailing));

    let matches3 = trie.match_topic("orders.us.electronics.created");
    assert!(!matches3.contains(&id_exact));
    assert!(!matches3.contains(&id_any));
    assert!(matches3.contains(&id_trailing));
}

#[test]
fn test_topic_trie_remove_and_edges() {
    let mut trie = TopicTrie::new();
    trie.insert("orders.>", 1);
    trie.insert("orders.*", 2);
    trie.insert("orders.*", 2);
    assert!(trie.match_topic("orders").is_empty());
    let m = trie.match_topic("orders.eu");
    assert_eq!(m.len(), 2);
    assert!(trie.remove(2));
    assert!(!trie.remove(2));
    assert_eq!(trie.match_topic("orders.eu"), vec![1]);
    trie.insert("a.>.b", 3);
    assert!(trie.match_topic("a.x.y").contains(&3));
    assert!(trie.match_topic("other").is_empty());
}
