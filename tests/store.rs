use phpcs_lsp::store::{compress_document, decompress_document, DocumentStore};

fn round_trip(text: &str) {
    let d = compress_document(text);
    assert_eq!(d.uncompressed_size(), text.len());
    assert_eq!(decompress_document(&d), Ok(text.to_string()));
}

#[test]
fn round_trip_empty_and_small() {
    round_trip("");
    round_trip("<?php echo 'héllo wörld ✓';\n");
}

#[test]
fn round_trip_multi_megabyte() {
    let mut text = String::new();
    let mut i: u64 = 0;
    while text.len() < 3 * 1024 * 1024 {
        text.push_str(&format!("<?php $v{} = {} * {};\n", i, i.wrapping_mul(2654435761) % 9973, i));
        i += 1;
    }
    round_trip(&text);
}

#[test]
fn compression_shrinks_repetitive_text() {
    let text = "abcdefgh".repeat(10_000);
    let d = compress_document(&text);
    assert!(d.compressed().len() < text.len() / 10);
}

#[test]
fn fingerprint_is_sha256_hex() {
    let d = compress_document("abc");
    assert_eq!(d.fingerprint(), "ba7816bf8f01cfea414140de5dae2223b00361a396177a9cb410ff61f20015ad");
    let e = compress_document("");
    assert_eq!(e.fingerprint(), "e3b0c44298fc1c149afbf4c8996fb92427ae41e4649b934ca495991b7852b855");
}

#[test]
fn fingerprint_deterministic_and_distinct() {
    let corpus = ["", "a", "b", "ab", "ba", "<?php", "<?php ", "<?php\n", "x".repeat(1000).leak(), "x".repeat(1001).leak()];
    let prints: Vec<String> = corpus.iter().map(|t| compress_document(t).fingerprint().clone()).collect();
    for (i, t) in corpus.iter().enumerate() {
        assert_eq!(*compress_document(t).fingerprint(), prints[i]);
        for j in 0..i {
            assert_ne!(prints[i], prints[j]);
        }
    }
}

#[test]
fn store_tracks_memory() {
    let mut s = DocumentStore::new();
    assert_eq!(s.memory_usage(), 0);
    s.put("file:///a.php".to_string(), "<?php echo 1;");
    let a = s.get("file:///a.php").unwrap().compressed().len() as u128;
    assert_eq!(s.memory_usage(), a);
    s.put("file:///b.php".to_string(), &"x".repeat(5000));
    let b = s.get("file:///b.php").unwrap().compressed().len() as u128;
    assert_eq!(s.memory_usage(), a + b);
    assert_eq!(s.len(), 2);
    s.put("file:///a.php".to_string(), "<?php echo 22222;");
    let a2 = s.get("file:///a.php").unwrap().compressed().len() as u128;
    assert_eq!(s.memory_usage(), a2 + b);
    assert_eq!(s.len(), 2);
    assert_eq!(s.remove("file:///b.php") as u128, b);
    assert_eq!(s.memory_usage(), a2);
    assert_eq!(s.remove("file:///b.php"), 0);
    assert_eq!(s.memory_usage(), a2);
    assert!(s.get("file:///b.php").is_none());
    let text = decompress_document(s.get("file:///a.php").unwrap()).unwrap();
    assert_eq!(text, "<?php echo 22222;");
    s.clear();
    assert_eq!(s.memory_usage(), 0);
    assert_eq!(s.len(), 0);
}
