use world_state::crypto::{generate_keypair, get_public_key_type, sign, signature_scheme, verify, SignatureScheme};
use world_state::mirror::{delete_statement, root_statement, table_statement, trimmer, upsert_statement, RQLite};

#[test]
fn upsert_statement_text() {
    assert_eq!(
        upsert_statement("tx", &[0x01, 0xab], &[0xff]),
        "INSERT OR REPLACE INTO tx (trie_key, trie_value) VALUES ('01ab', 'ff')"
    );
}

#[test]
fn delete_statement_text() {
    assert_eq!(delete_statement("cron", &[0x00, 0x10]), "DELETE FROM cron WHERE trie_key = '0010'");
}

#[test]
fn root_statement_text() {
    let root = [0xa5u8; 32];
    assert_eq!(
        root_statement("metadata", &root),
        format!("INSERT OR REPLACE INTO roots (root_key, root_value) VALUES ('metadata', '{}')", "a5".repeat(32))
    );
}

#[test]
fn create_tables_statements() {
    let s = RQLite::create_tables();
    assert_eq!(s.len(), 6);
    assert_eq!(s[0], table_statement("tx"));
    assert_eq!(s[0], "CREATE TABLE IF NOT EXISTS tx (trie_key TEXT PRIMARY KEY UNIQUE, trie_value TEXT NULL)");
    assert_eq!(s[1], table_statement("receipt"));
    assert_eq!(s[2], table_statement("metacontract"));
    assert_eq!(s[3], table_statement("metadata"));
    assert_eq!(s[4], table_statement("cron"));
    assert_eq!(s[5], "CREATE TABLE IF NOT EXISTS roots (root_key TEXT PRIMARY KEY UNIQUE, root_value TEXT NULL)");
}

#[test]
fn request_arguments() {
    let m = RQLite { execute_url: "http://localhost:4001/db/execute".into(), query_url: "http://localhost:4001/db/query".into() };
    let args = m.execute("DELETE FROM tx WHERE trie_key = '00'");
    assert_eq!(
        args,
        vec![
            "-s",
            "-XPOST",
            "http://localhost:4001/db/execute",
            "-H",
            "Content-Type: application/json",
            "-d",
            "[\"DELETE FROM tx WHERE trie_key = '00'\"]",
        ]
    );
    let q = m.query("SELECT 1");
    assert_eq!(q[2], "http://localhost:4001/db/query");
    assert_eq!(q[6], "[\"SELECT 1\"]");
}

#[test]
fn trimmer_removes_newlines_and_ends() {
    assert_eq!(trimmer("  {\"a\":\n1}\n \t".to_string()), "{\"a\":1}");
    assert_eq!(trimmer("\n\n".to_string()), "");
    assert_eq!(trimmer("a b".to_string()), "a b");
    assert_eq!(trimmer("\u{3000}x\u{a0}".to_string()), "x");
}

#[test]
fn public_key_type() {
    assert_eq!(get_public_key_type("0x1234"), "secp256k1");
    assert_eq!(get_public_key_type("abcd"), "ed25519");
    assert_eq!(get_public_key_type("0"), "ed25519");
    assert_eq!(get_public_key_type(""), "ed25519");
}

#[test]
fn scheme_by_name() {
    assert_eq!(signature_scheme(""), SignatureScheme::Secp256k1);
    assert_eq!(signature_scheme("secp256k1"), SignatureScheme::Secp256k1);
    assert_eq!(signature_scheme("ed25519"), SignatureScheme::Ed25519);
}

#[test]
fn ed25519_sign_and_verify() {
    let kp = generate_keypair();
    assert_eq!(kp.pk.len(), 44);
    assert_eq!(kp.sk.len(), 88);
    let sig = sign("hello".to_string(), kp.sk.clone()).expect("a 64-byte key");
    assert_eq!(sig.len(), 88);
    assert_eq!(verify(kp.pk.clone(), sig.clone(), "hello".to_string(), "ed25519".to_string()), Some(true));
    assert_eq!(verify(kp.pk.clone(), sig.clone(), "hellO".to_string(), "ed25519".to_string()), Some(false));
    assert_eq!(verify(kp.pk.clone(), sig.clone(), "hello".to_string(), "".to_string()), None);
    assert_eq!(verify(kp.pk.clone(), sig.clone(), "hello".to_string(), "secp256k1".to_string()), None);
    assert_eq!(verify("not base64!".to_string(), sig, "hello".to_string(), "ed25519".to_string()), Some(false));
}

#[test]
fn sign_refuses_bad_keys() {
    assert_eq!(sign("m".to_string(), "not base64!".to_string()), None);
    assert_eq!(sign("m".to_string(), "AAAA".to_string()), None);
}
