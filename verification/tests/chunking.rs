use embed_bench::chunks::{
    chunks_preview, chunks_source, document_preview, dump_chunks, flatten_words, get_test_chunks,
    limit_chunks, load_chunks, segments, ChunksError, CHUNKS_LIMIT,
};

fn owned(parts: &[&str]) -> Vec<String> {
    parts.iter().map(|p| p.to_string()).collect()
}

#[test]
fn segments_are_the_pieces_that_are_not_blank() {
    assert_eq!(segments("a b\r\n\tc\u{3000} \u{3000}"), owned(&["a", "b", "c\u{3000}"]));
    assert_eq!(segments(" \n\u{a0}\u{2003}\t"), owned(&[]));
    assert_eq!(segments(""), owned(&[]));
}

#[test]
fn chunks_are_the_words_of_a_document() {
    assert_eq!(
        get_test_chunks("The quick (\"brown\") fox can't jump 32.3 feet, right?"),
        owned(&["The", "quick", "brown", "fox", "can't", "jump", "32.3", "feet", "right"])
    );
    assert_eq!(get_test_chunks("从前，有座\n山"), owned(&["从", "前", "有", "座", "山"]));
    assert_eq!(get_test_chunks("... --- !!!"), owned(&[]));
}

#[test]
fn word_lists_are_put_one_after_another() {
    let lists = vec![owned(&["a", "b"]), owned(&[]), owned(&["c"])];
    assert_eq!(flatten_words(&lists), owned(&["a", "b", "c"]));
}

#[test]
fn source_of_a_table() {
    assert_eq!(
        chunks_source(&owned(&["one", "a\\b"])),
        "pub static CHUNKS: [&str; 2] = [r#\"one\"#, r#\"a\\b\"#];"
    );
    assert_eq!(chunks_source(&[]), "pub static CHUNKS: [&str; 0] = [];");
}

#[test]
fn dumped_chunks_are_loaded_again() {
    let chunks = owned(&["plain", "", "quo\"te", "back\\slash", "line\nbreak", "山", "\u{1}\u{7f}"]);
    let bytes = dump_chunks(&chunks);
    assert_eq!(load_chunks(&bytes).unwrap(), chunks);
    assert_eq!(load_chunks(&dump_chunks(&Vec::new())).unwrap(), owned(&[]));
}

#[test]
fn chunks_are_dumped_as_indented_json() {
    let bytes = dump_chunks(&owned(&["one", "two"]));
    assert_eq!(String::from_utf8(bytes).unwrap(), "[\n  \"one\",\n  \"two\"\n]");
}

#[test]
fn a_malformed_file_is_refused() {
    for text in ["", "{}", "[1]", "[\"a\"", "[\"a\"] x"] {
        assert!(matches!(load_chunks(text.as_bytes()), Err(ChunksError::Malformed(_))));
    }
    assert_eq!(load_chunks(b" [ \"a\" ] ").unwrap(), owned(&["a"]));
}

#[test]
fn a_run_is_limited() {
    assert_eq!(CHUNKS_LIMIT, 128_000);
    assert_eq!(CHUNKS_LIMIT % embed_bench::model::BATCH_SIZE, 0);
    assert_eq!(limit_chunks(&owned(&["a", "b"])), owned(&["a", "b"]));
    let many: Vec<String> = (0..CHUNKS_LIMIT + 3).map(|i| i.to_string()).collect();
    let kept = limit_chunks(&many);
    assert_eq!(kept.len(), CHUNKS_LIMIT);
    assert_eq!(kept[..], many[..CHUNKS_LIMIT]);
}

#[test]
fn previews() {
    assert_eq!(document_preview("short"), "short");
    assert_eq!(document_preview("一二三四五六七八九十一二三四五六七八九十多"), "一二三四五六七八九十一二三四五六七八九十");
    let chunks: Vec<String> = (0..21).map(|i| i.to_string()).collect();
    assert_eq!(
        chunks_preview(&chunks),
        "0\n1\n2\n3\n4\n5\n6\n7\n8\n9\n10\n11\n12\n13\n14\n15\n16\n17\n18\n19"
    );
}
