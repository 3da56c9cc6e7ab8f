use dmacs::document::Document;

#[test]
fn test_is_dirty_new_file() {
    let doc = Document::new_empty();
    assert!(doc.is_dirty(), "New document should be dirty.");
}
