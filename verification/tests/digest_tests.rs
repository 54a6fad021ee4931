use ustbills::digest::{generate_hash, generate_unique_id, unique_id_from_hash};
use ustbills::principal::Principal;

#[test]
fn hash_is_the_sha256_digest_in_lower_case_hexadecimal() {
    assert_eq!(
        generate_hash("abc"),
        "ba7816bf8f01cfea414140de5dae2223b00361a396177a9cb410ff61f20015ad"
    );
    assert_eq!(
        generate_hash(""),
        "e3b0c44298fc1c149afbf4c8996fb92427ae41e4649b934ca495991b7852b855"
    );
    assert_ne!(generate_hash("abc"), "abc");
}

#[test]
fn unique_id_is_the_prefix_and_the_head_of_the_hash() {
    assert_eq!(unique_id_from_hash("bill", "0123456789abcdef"), "bill_01234567");
    let caller = Principal::anonymous();
    let id = generate_unique_id("bill", 1_700_000_000, &caller);
    let hash = generate_hash("bill_1700000000_2vxsx-fae");
    assert_eq!(id, format!("bill_{}", &hash[..8]));
    assert_ne!(id, generate_unique_id("bill", 1_700_000_001, &caller));
}
