use guarded_fs::digest::get_file_hash;
use guarded_fs::either::Either;
use guarded_fs::either::Traversable;
use guarded_fs::greet;
use guarded_fs::keys::create_keys_material;
use guarded_fs::system_info::system_info;
use guarded_fs::tee_writer::TeeWriter;
use guarded_fs::token::create_jwt_token;

#[test]
fn greet_returns() {
    assert_eq!(greet("blub"), "Hello, blub! You've been greeted from Rust!");
}

#[test]
fn hash_of_empty_input() {
    assert_eq!(
        get_file_hash(&vec![]),
        Ok("e3b0c44298fc1c149afbf4c8996fb92427ae41e4649b934ca495991b7852b855".to_string())
    );
}

#[test]
fn hash_of_abc() {
    let content: Vec<u8> = vec![97, 98, 99];
    assert_eq!(
        get_file_hash(&content),
        Ok("ba7816bf8f01cfea414140de5dae2223b00361a396177a9cb410ff61f20015ad".to_string())
    );
}

#[test]
fn keys_are_pem_texts() {
    let (public_pem, secret_pem) = create_keys_material();
    assert!(public_pem.contains("BEGIN PUBLIC KEY"));
    assert!(secret_pem.contains("BEGIN PRIVATE KEY"));
}

#[test]
fn jwt_round_trip_shape() {
    let (_public_pem, secret_pem) = create_keys_material();
    let claims: serde_json::Value = serde_json::from_str("{\"sub\":\"student42\"}").unwrap();
    let key_bytes: Vec<u8> = secret_pem.into_bytes();
    match create_jwt_token(&key_bytes, &claims) {
        Either::Right(token) => {
            // a compact token has three dot-separated parts
            assert_eq!(token.split('.').count(), 3);
        }
        Either::Left(msg) => panic!("token not created: {msg}"),
    }
}

#[test]
fn jwt_rejects_bad_key() {
    let claims: serde_json::Value = serde_json::from_str("{}").unwrap();
    let key_bytes: Vec<u8> = b"not a pem at all".to_vec();
    match create_jwt_token(&key_bytes, &claims) {
        Either::Left(msg) => {
            assert_eq!(msg, "Could not create JWT token: Invalid key file");
        }
        Either::Right(_) => panic!("a garbage key must not sign"),
    }
}

#[test]
fn system_info_reports_option() {
    // machine-dependent: only the call itself is exercised
    let _ = system_info();
}

#[test]
fn tee_writer_round_trip() {
    let left: Vec<u8> = vec![1, 2];
    let right: Vec<u8> = vec![3];
    let tee = TeeWriter::new(left.clone(), right.clone());
    let (l, r) = tee.into_inner();
    assert_eq!(l, left);
    assert_eq!(r, right);
}

#[test]
fn either_from_result() {
    let ok: Result<i32, String> = Ok(5);
    let err: Result<i32, String> = Err("bad".to_string());
    assert_eq!(Either::from(ok), Either::Right(5));
    assert_eq!(Either::from(err), Either::Left("bad".to_string()));
}

#[test]
fn traverse_swaps_layers() {
    let ok: Result<i32, String> = Ok(5);
    let r: Result<Result<i32, String>, String> = ok.traverse(|v| Ok(v + 1));
    assert_eq!(r, Ok(Ok(6)));

    let inner_err: Result<i32, String> = Err("inner".to_string());
    let r2: Result<Result<i32, String>, String> = inner_err.traverse(|v| Ok(v + 1));
    assert_eq!(r2, Ok(Err("inner".to_string())));

    let ok2: Result<i32, String> = Ok(5);
    let r3: Result<Result<i32, String>, String> = ok2.traverse(|_v| Err("outer".to_string()));
    assert_eq!(r3, Err("outer".to_string()));
}
