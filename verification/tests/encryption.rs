//! Tests of the ElGamal primitive: round trips, manual ciphertexts,
//! homomorphic multiplication and the error paths.

use secret_santa::cipher::decrypt;
use secret_santa::cipher::encrypt;
use secret_santa::cipher::generate_keypair;
use secret_santa::cipher::multiply;
use secret_santa::cipher::rfc7919_2048_group;
use secret_santa::cipher::Ciphertext;
use secret_santa::cipher::CipherError;
use secret_santa::cipher::GroupParams;
use secret_santa::cipher::PrivateKey;
use curv::arithmetic::Converter;
use curv::arithmetic::Modulo;
use curv::arithmetic::Samplable;
use curv::BigInt;

#[test]
fn test_allice_simple_encryption() {
    // choose suitable field parameter, https://tools.ietf.org/html/rfc7919
    let alice_pp = rfc7919_2048_group();
    let alice_key_pair = generate_keypair(&alice_pp);

    let alice_name = String::from("Alice Smith");
    let alice_name_bytes = alice_name.clone().into_bytes();
    let alice_name_bigint = BigInt::from_bytes(&alice_name_bytes);

    let cipher = encrypt(&alice_name_bigint, &alice_key_pair.pk).unwrap();
    let message_tag = decrypt(&cipher, &alice_key_pair.sk).unwrap();

    let message_tag_bytes = message_tag.to_bytes();
    let message_tag_string = String::from_utf8(message_tag_bytes).unwrap();

    println!(
        "basic encryption: message: {}, decrypted: {}",
        alice_name, message_tag_string
    );
    assert_eq!(alice_name, message_tag_string);
}

#[test]
fn test_allice_complete_encryption() {
    let alice_pp = rfc7919_2048_group();
    // create a public, secret keypair
    let alice_key_pair = generate_keypair(&alice_pp);
    let name: [u8; 4] = [70, 71, 72, 73];
    let message = u32::from_be_bytes(name);
    let message_bn = BigInt::from(message);
    let message_in_field = message_bn.modulus(&alice_pp.q);
    let cipher = encrypt(&message_in_field, &alice_key_pair.pk).unwrap();
    let message_prime = decrypt(&cipher, &alice_key_pair.sk).unwrap();
    println!(
        "basic encryption: message: {}, decrypted: {}",
        message, message_prime
    );
    assert_eq!(message_bn, message_prime);
}

#[test]
fn test_product_encryption() {
    let alice_pp = rfc7919_2048_group();
    let alice_key_pair = generate_keypair(&alice_pp);

    // homomorphic multiplication
    let factor_1 = BigInt::from(3);
    let factor_2 = BigInt::from(5);

    let cipher = encrypt(&factor_1, &alice_key_pair.pk).unwrap();
    let constant_cipher = encrypt(&factor_2, &alice_key_pair.pk).unwrap();

    // homomorphic multiplication in cipher space
    let product_cipher = multiply(&cipher, &constant_cipher).unwrap();

    // decrypt homomorphic product
    let product_tag = decrypt(&product_cipher, &alice_key_pair.sk).unwrap();

    assert_eq!(&factor_1 * &factor_2, product_tag);
}

#[test]
fn test_elgamal() {
    let alice_pp = rfc7919_2048_group();
    // create a public, secret keypair
    let alice_key_pair = generate_keypair(&alice_pp);
    let name: [u8; 4] = [70, 71, 72, 73];
    let message = u32::from_be_bytes(name);
    let message_bn = BigInt::from(message);
    let message_in_field = message_bn.modulus(&alice_pp.q);
    let cipher = encrypt(&message_in_field, &alice_key_pair.pk).unwrap();
    let message_prime = decrypt(&cipher, &alice_key_pair.sk).unwrap();
    println!(
        "basic encryption: message: {}, decrypted: {}",
        message, message_prime
    );

    let y = BigInt::sample_below(&alice_pp.q);
    let c1 = BigInt::mod_pow(&alice_key_pair.pk.pp.g, &y, &alice_key_pair.pk.pp.p);
    let s = BigInt::mod_pow(&alice_key_pair.pk.h, &y, &alice_key_pair.pk.pp.p);
    let c2 = BigInt::mod_mul(&s, &message_in_field, &alice_pp.p);
    let ct_manual = Ciphertext {
        c1,
        c2,
        pp: alice_pp.clone(),
    };
    let message_double_prime = decrypt(&ct_manual, &alice_key_pair.sk).unwrap();
    assert_eq!(message_bn, message_double_prime);

    let m3 = BigInt::from(3);
    let m5 = BigInt::from(5);
    let c3 = encrypt(&m3, &alice_key_pair.pk).unwrap();
    let c5 = encrypt(&m5, &alice_key_pair.pk).unwrap();
    let c15 = Ciphertext {
        c1: BigInt::mod_mul(&c3.c1, &c5.c1, &alice_key_pair.pk.pp.p),
        c2: BigInt::mod_mul(&c3.c2, &c5.c2, &alice_key_pair.pk.pp.p),
        pp: alice_pp.clone(),
    };
    assert_eq!(decrypt(&c15, &alice_key_pair.sk).unwrap(), BigInt::from(15));
}

#[test]
fn round_trip_of_zero() {
    let pp = rfc7919_2048_group();
    let key_pair = generate_keypair(&pp);
    let zero = BigInt::from(0u64);
    let cipher = encrypt(&zero, &key_pair.pk).unwrap();
    assert_eq!(decrypt(&cipher, &key_pair.sk).unwrap(), zero);
}

#[test]
fn homomorphic_product_reduces_modulo_p() {
    let pp = rfc7919_2048_group();
    let key_pair = generate_keypair(&pp);
    let one = BigInt::from(1u64);
    let m1 = &pp.p - &one;
    let m2 = &pp.p - &one;
    let expected = BigInt::mod_mul(&m1, &m2, &pp.p);
    assert_eq!(expected, one);

    let c1 = encrypt(&m1, &key_pair.pk).unwrap();
    let c2 = encrypt(&m2, &key_pair.pk).unwrap();
    let product = multiply(&c1, &c2).unwrap();
    assert_eq!(decrypt(&product, &key_pair.sk).unwrap(), expected);
}

#[test]
fn encrypt_rejects_message_outside_field() {
    let pp = rfc7919_2048_group();
    let key_pair = generate_keypair(&pp);
    let too_large = pp.p.clone();
    assert_eq!(
        encrypt(&too_large, &key_pair.pk),
        Err(CipherError::OutOfField)
    );
}

#[test]
fn decrypt_rejects_mismatched_parameters() {
    let pp = rfc7919_2048_group();
    let key_pair = generate_keypair(&pp);
    let doctored = GroupParams {
        p: pp.p.clone(),
        q: &pp.q + BigInt::from(1u64),
        g: pp.g.clone(),
    };
    let ct = Ciphertext {
        c1: BigInt::from(1u64),
        c2: BigInt::from(1u64),
        pp: doctored,
    };
    assert!(matches!(
        decrypt(&ct, &key_pair.sk),
        Err(CipherError::MismatchedParameters)
    ));
}

#[test]
fn decrypt_rejects_component_outside_field() {
    let pp = rfc7919_2048_group();
    let key_pair = generate_keypair(&pp);
    let ct = Ciphertext {
        c1: BigInt::from(1u64),
        c2: pp.p.clone(),
        pp: pp.clone(),
    };
    assert!(matches!(
        decrypt(&ct, &key_pair.sk),
        Err(CipherError::OutOfField)
    ));
}

#[test]
fn decrypt_rejects_noninvertible_mask() {
    let pp = rfc7919_2048_group();
    let sk = PrivateKey {
        pp: pp.clone(),
        x: BigInt::from(1u64),
    };
    let ct = Ciphertext {
        c1: BigInt::from(0u64),
        c2: BigInt::from(1u64),
        pp: pp.clone(),
    };
    assert!(matches!(decrypt(&ct, &sk), Err(CipherError::NotInvertible)));
}

#[test]
fn multiply_rejects_mismatched_parameters() {
    let pp = rfc7919_2048_group();
    let key_pair = generate_keypair(&pp);
    let good = encrypt(&BigInt::from(2u64), &key_pair.pk).unwrap();
    let doctored = Ciphertext {
        c1: good.c1.clone(),
        c2: good.c2.clone(),
        pp: GroupParams {
            p: pp.p.clone(),
            q: &pp.q + BigInt::from(1u64),
            g: pp.g.clone(),
        },
    };
    assert!(matches!(
        multiply(&good, &doctored),
        Err(CipherError::MismatchedParameters)
    ));
}
