use prism::registry::score;

#[test]
fn scoring() {
    let q: Vec<char> = "ext".chars().collect();
    assert!(score(&q, "extrude").unwrap() > score(&q, "exit textures").unwrap());
    assert!(score(&q, "nope").is_none());
    assert_eq!(score(&[], "anything"), Some(0));
}
