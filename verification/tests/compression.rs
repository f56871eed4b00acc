use asez2_shared_db::essential::compression::{compress_bzip, decompress_bzip};

#[test]
pub fn test_compression() {
    let source_string = "Hello, world!".to_string();
    let source_buf = source_string.as_bytes();
    match compress_bzip(source_buf) {
        Ok(compressed_buffer) => match decompress_bzip(compressed_buffer.as_slice()) {
            Ok(data) => {
                assert_eq!(String::from_utf8(data).unwrap(), source_string)
            }
            Err(_) => panic!("Should not happens!"),
        },
        Err(_) => panic!("Should not happens!"),
    }
}

#[test]
fn compressed_differs_from_source() {
    let data = vec![7u8; 4096];
    let packed = compress_bzip(&data).unwrap();
    assert_ne!(packed, data);
    assert!(packed.starts_with(b"BZh9"));
    assert_eq!(decompress_bzip(&packed).unwrap(), data);
}

#[test]
fn decompress_rejects_garbage() {
    assert!(decompress_bzip(b"definitely not bzip2").is_err());
    let packed = compress_bzip(b"truncated stream").unwrap();
    assert!(decompress_bzip(&packed[..packed.len() / 2]).is_err());
}
