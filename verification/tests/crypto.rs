use rust_rss_reader::crypto::{seal_text, CryptoError, CryptoManager};

#[test]
fn test_encrypt_decrypt() {
    let crypto_manager = CryptoManager::new(None).expect("无法创建加密管理器");
    let test_data = "test_api_key_123456";
    let encrypted = crypto_manager.encrypt(test_data).expect("加密数据失败");
    println!("加密后: {}", encrypted);
    assert!(crypto_manager.is_encrypted(&encrypted));
    let decrypted = crypto_manager.decrypt(&encrypted).expect("解密数据失败");
    println!("解密后: {}", decrypted);
    assert_eq!(test_data, decrypted);
}

#[test]
fn test_is_encrypted() {
    let crypto_manager = CryptoManager::new(None).expect("无法创建加密管理器");
    let plaintext = "test_api_key_123456";
    assert!(!crypto_manager.is_encrypted(plaintext));
    let encrypted = crypto_manager.encrypt(plaintext).expect("加密数据失败");
    assert!(crypto_manager.is_encrypted(&encrypted));
    let invalid_format = "invalid.format";
    assert!(!crypto_manager.is_encrypted(invalid_format));
    let invalid_base64 = "invalid_base64_string.another_invalid_string.yet_another";
    assert!(!crypto_manager.is_encrypted(invalid_base64));
}

#[test]
fn stored_key_must_have_32_bytes() {
    match CryptoManager::new(Some(vec![1u8; 5])) {
        Err(CryptoError::EncodingError(m)) => assert_eq!(m, "密钥文件内容无效，长度不正确"),
        _ => panic!("a short key must be refused"),
    }
    let m = CryptoManager::new(Some(vec![7u8; 32])).expect("a 32-byte key is accepted");
    assert_eq!(m.key_bytes(), vec![7u8; 32]);
}

#[test]
fn decrypt_reports_each_failure() {
    let m = CryptoManager::new(Some(vec![3u8; 32])).unwrap();
    match m.decrypt("a.b") {
        Err(CryptoError::EncodingError(msg)) => assert_eq!(msg, "无效的加密字符串格式"),
        _ => panic!("two parts are a bad format"),
    }
    match m.decrypt("!!!.AAAA.AAAA") {
        Err(CryptoError::EncodingError(msg)) => assert_eq!(msg, "无效的nonce编码"),
        _ => panic!("bad nonce encoding"),
    }
    match m.decrypt("AAAA.AAAA.AAAA") {
        Err(CryptoError::EncodingError(msg)) => assert_eq!(msg, "无效的nonce长度，预期12字节，实际3字节"),
        _ => panic!("bad nonce length"),
    }
    let sealed = m.encrypt("secret").unwrap();
    let other = CryptoManager::new(Some(vec![4u8; 32])).unwrap();
    match other.decrypt(&sealed) {
        Err(CryptoError::AesError(msg)) => assert_eq!(msg, "aead::Error"),
        _ => panic!("another key must be refused"),
    }
}

#[test]
fn sealing_twice_gives_different_texts_that_read_back() {
    let m = CryptoManager::new(None).unwrap();
    let a = m.encrypt("same").unwrap();
    let b = m.encrypt("same").unwrap();
    assert_ne!(a, b);
    assert_eq!(m.decrypt(&a).unwrap(), "same");
    assert_eq!(m.decrypt(&b).unwrap(), "same");
    assert_eq!(a.split('.').count(), 3);
}

#[test]
fn sealed_text_splits_ciphertext_and_tag() {
    let mut sealed = vec![1u8, 2, 3];
    sealed.extend(std::iter::repeat(255u8).take(16));
    assert_eq!(seal_text(&[0u8; 12], &sealed), "AAAAAAAAAAAAAAAA.AQID./////////////////////w==");
}

#[test]
fn every_text_is_sealed_with_its_length() {
    let crypto = CryptoManager::new(Some(vec![7u8; 32])).unwrap();
    for text in ["", "k", "sk-0123456789abcdef", "密钥"] {
        let sealed = crypto.encrypt(text).unwrap();
        let parts: Vec<&str> = sealed.split('.').collect();
        assert_eq!(parts.len(), 3);
        assert_eq!(data_encoding::BASE64.decode(parts[0].as_bytes()).unwrap().len(), 12);
        assert_eq!(data_encoding::BASE64.decode(parts[1].as_bytes()).unwrap().len(), text.len());
        assert_eq!(data_encoding::BASE64.decode(parts[2].as_bytes()).unwrap().len(), 16);
        assert_eq!(crypto.decrypt(&sealed).unwrap(), text);
    }
}
