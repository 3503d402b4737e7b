use nix_forecast::failure::Failure;
use nix_forecast::probe::{checked_narinfo_url, narinfo_url};
use nix_forecast::store_path::{
    hash_from_store_path, is_valid_store_path, DIGEST_SIZE, STORE_DIRECTORY,
};

#[test]
fn digest_of_a_store_path() {
    let path = "/nix/store/0c2l1nc1bs5d6d1bsm1xjpj5l7fclx7z-hello-2.12.1";
    assert!(is_valid_store_path(path));
    assert_eq!(hash_from_store_path(path), "0c2l1nc1bs5d6d1bsm1xjpj5l7fclx7z");
}

#[test]
fn digest_has_the_fixed_length() {
    let path = format!("{}/{}-foo", STORE_DIRECTORY, "a".repeat(DIGEST_SIZE));
    assert_eq!(hash_from_store_path(&path).chars().count(), 32);
    assert_eq!(hash_from_store_path(&path), "a".repeat(32));
}

#[test]
fn digest_is_counted_in_characters() {
    let digest = "ä".repeat(32);
    let path = format!("/nix/store/{digest}-name");
    assert!(is_valid_store_path(&path));
    assert_eq!(hash_from_store_path(&path), digest);
}

#[test]
fn shortest_store_path_has_a_name_of_one_character() {
    let path = format!("/nix/store/{}-x", "b".repeat(32));
    assert!(is_valid_store_path(&path));
}

#[test]
fn path_without_name_is_no_store_path() {
    assert!(!is_valid_store_path(&format!("/nix/store/{}-", "b".repeat(32))));
    assert!(!is_valid_store_path(&format!("/nix/store/{}", "b".repeat(32))));
}

#[test]
fn short_path_is_no_store_path() {
    assert!(!is_valid_store_path(""));
    assert!(!is_valid_store_path("/nix/store/"));
    assert!(!is_valid_store_path("/nix/store/abc-foo"));
}

#[test]
fn path_outside_the_store_is_no_store_path() {
    assert!(!is_valid_store_path(&format!("/tmp/store/{}-foo", "a".repeat(32))));
    assert!(!is_valid_store_path(&format!("/nix/store-{}-foo", "a".repeat(32))));
    assert!(!is_valid_store_path(&format!("/store/{}-foo-and-more", "a".repeat(32))));
}

#[test]
fn path_without_separator_behind_the_digest_is_no_store_path() {
    assert!(!is_valid_store_path(&format!("/nix/store/{}_foo", "a".repeat(32))));
    assert!(!is_valid_store_path(&format!("/nix/store/{}-foo", "a".repeat(33))));
}

#[test]
fn url_of_a_store_path_in_a_cache() {
    let path = "/nix/store/0c2l1nc1bs5d6d1bsm1xjpj5l7fclx7z-hello-2.12.1";
    assert_eq!(
        narinfo_url("https://cache.nixos.org", path),
        "https://cache.nixos.org/0c2l1nc1bs5d6d1bsm1xjpj5l7fclx7z.narinfo"
    );
}

#[test]
fn url_keeps_the_cache_as_it_is_given() {
    let path = format!("/nix/store/{}-foo", "a".repeat(32));
    assert_eq!(
        narinfo_url("http://localhost:8080/cache/", &path),
        format!("http://localhost:8080/cache//{}.narinfo", "a".repeat(32))
    );
    assert_eq!(narinfo_url("", &path), format!("/{}.narinfo", "a".repeat(32)));
}

#[test]
fn checked_url_of_a_store_path() {
    let path = format!("/nix/store/{}-foo", "c".repeat(32));
    assert_eq!(
        checked_narinfo_url("https://cache.example", &path),
        Ok(format!("https://cache.example/{}.narinfo", "c".repeat(32)))
    );
}

#[test]
fn checked_url_refuses_what_is_no_store_path() {
    assert_eq!(
        checked_narinfo_url("https://cache.example", "/nix/store/short"),
        Err(Failure::InvalidStorePath("/nix/store/short".to_string()))
    );
}
