use uds::file::{plan_upload, split_documents, MAX_DOC_LENGTH};

#[test]
fn small_file_plan() {
    let plan = plan_upload(b"hello");
    assert_eq!(plan.properties.size, "5");
    assert_eq!(plan.properties.encoded_size, "5");
    assert_eq!(plan.properties.md5, "5d41402abc4b2a76b9719d911017c592");
    assert_eq!(plan.chunks.len(), 1);
    assert_eq!(plan.chunks[0].order, "1000000");
    assert_eq!(plan.chunks[0].content, "aGVsbG8=");
}

#[test]
fn empty_file_plan() {
    let plan = plan_upload(b"");
    assert_eq!(plan.properties.size, "0");
    assert_eq!(plan.properties.encoded_size, "0");
    assert_eq!(plan.properties.md5, "d41d8cd98f00b204e9800998ecf8427e");
    assert!(plan.chunks.is_empty());
}

#[test]
fn base64_padding() {
    assert_eq!(plan_upload(b"hell").chunks[0].content, "aGVsbA==");
    assert_eq!(plan_upload(b"hel").chunks[0].content, "aGVs");
    assert_eq!(plan_upload(&[0xff, 0xfe]).chunks[0].content, "//4=");
}

#[test]
fn large_file_is_split() {
    let content: Vec<u8> = (0..750001u32).map(|i| (i % 251) as u8).collect();
    let plan = plan_upload(&content);
    assert_eq!(plan.properties.size, "750001");
    assert_eq!(plan.properties.encoded_size, "750001");
    assert_eq!(plan.chunks.len(), 2);
    assert_eq!(plan.chunks[0].order, "1000000");
    assert_eq!(plan.chunks[0].content.len(), MAX_DOC_LENGTH);
    assert_eq!(plan.chunks[1].order, "2000000");
    assert_eq!(plan.chunks[1].content.len(), 4);
    let joined: String = plan.chunks.iter().map(|c| c.content.as_str()).collect();
    assert_eq!(joined, base64::encode(&content));
}

#[test]
fn exact_multiple_split() {
    let text = "A".repeat(2 * MAX_DOC_LENGTH);
    let chunks = split_documents(&text);
    assert_eq!(chunks.len(), 2);
    assert_eq!(chunks[1].order, "2000000");
    assert_eq!(chunks[1].content.len(), MAX_DOC_LENGTH);
    assert!(split_documents("").is_empty());
}

#[test]
fn upload_is_recoverable() {
    let content: Vec<u8> = (0..1_500_000u32).map(|i| (i.wrapping_mul(7919) % 256) as u8).collect();
    let plan = plan_upload(&content);
    let joined: String = plan.chunks.iter().map(|c| c.content.as_str()).collect();
    assert_eq!(base64::decode(&joined).unwrap(), content);
    assert!(plan.chunks.iter().all(|c| !c.content.is_empty() && c.content.len() <= MAX_DOC_LENGTH));
}

#[test]
fn properties_describe_content() {
    let content = b"The quick brown fox jumps over the lazy dog".to_vec();
    let plan = plan_upload(&content);
    assert_eq!(plan.properties.size.parse::<usize>().unwrap(), content.len());
    let digest: Vec<u8> = (0..16)
        .map(|i| u8::from_str_radix(&plan.properties.md5[2 * i..2 * i + 2], 16).unwrap())
        .collect();
    assert_eq!(digest, md5::compute(&content).0.to_vec());
    assert_eq!(plan.properties.md5, "9e107d9d372bb6826bd81d3542a419d6");
}
