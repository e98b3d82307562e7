use koid::backup::{backup_file_name, chosen_backup_path, derive_key, open_backup, random_nonce, seal_backup};

#[test]
fn key_derivation_is_stable_and_sensitive() {
    let k1 = derive_key("correct horse battery staple");
    let k2 = derive_key("correct horse battery staple");
    let k3 = derive_key("slightly different");
    assert_eq!(k1, k2);
    assert_ne!(k1, k3);
    assert_eq!(k1.len(), 32);
}

#[test]
fn nonce_is_random() {
    let a = random_nonce().unwrap();
    let b = random_nonce().unwrap();
    assert_ne!(a, b);
}

#[test]
fn sealed_backup_opens_with_same_passphrase_only() {
    let nonce = random_nonce().unwrap();
    let data = seal_backup("pass", nonce, b"snapshot bytes").unwrap();
    assert_eq!(&data[..7], b"KOIDBK1");
    assert_eq!(&data[7..19], &nonce);
    assert_ne!(&data[19..], b"snapshot bytes");
    assert_eq!(open_backup("pass", &data).unwrap(), b"snapshot bytes".to_vec());
    assert_eq!(open_backup("other", &data), Err("解密失败：口令错误或文件已损坏".to_string()));
}

#[test]
fn foreign_or_short_files_are_not_backups() {
    assert_eq!(open_backup("p", b"KOIDBK1short"), Err("不是有效的 Koid 备份文件".to_string()));
    let mut data = seal_backup("p", [7u8; 12], b"x").unwrap();
    data[0] = b'X';
    assert_eq!(open_backup("p", &data), Err("不是有效的 Koid 备份文件".to_string()));
}

#[test]
fn key_is_sha256_of_passphrase() {
    // SHA-256("abc")
    let k = derive_key("abc");
    assert_eq!(k[0], 0xba);
    assert_eq!(k[1], 0x78);
    assert_eq!(k[31], 0xad);
}

#[test]
fn export_path_and_default_file_name() {
    assert_eq!(chosen_backup_path(Some("  /tmp/a.bk ")), Some("/tmp/a.bk".to_string()));
    assert_eq!(chosen_backup_path(Some("   ")), None);
    assert_eq!(chosen_backup_path(None), None);
    assert_eq!(backup_file_name(1700000000000), "koid-backup-1700000000000.koid-backup");
}
