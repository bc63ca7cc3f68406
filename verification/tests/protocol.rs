//! Tests of the assignment protocol: participants, ledger initialization,
//! shuffle rounds and lookup.

use secret_santa::cipher::CipherError;
use secret_santa::models::AppError;
use secret_santa::models::Player;
use secret_santa::models::PlayerTrait;
use secret_santa::models::PrivateList;
use secret_santa::cipher::GroupParams;
use secret_santa::cipher::PublicKey;
use curv::BigInt;

#[test]
fn test_player() {
    let player = Player::init();
    let key_pair = player.get_key_pair();
    assert_eq!(key_pair.pk.pp, player.pub_key.pp);
}

#[test]
fn test_private_list() {
    let player = Player::init();
    let player_key_pair = player.get_key_pair();

    let private_list = PrivateList::init(&[player_key_pair.pk.clone()]).unwrap();

    assert_eq!(private_list.private_list[0], player_key_pair.pk.h);
    assert_eq!(private_list.pp, player.pub_key.pp);
    assert_eq!(private_list.g_s, player.pub_key.pp.g);
}

#[test]
fn test_secure_shuffle() {
    let player = Player::init();
    let pub_keys = vec![player.pub_key.clone()];
    let mut private_list = PrivateList::init(&pub_keys).unwrap();
    let original_list = private_list.private_list.clone();

    private_list.secure_shuffle(&player);

    // Ensure the list is shuffled
    assert_ne!(original_list, private_list.private_list);

    // Ensure the length remains the same
    assert_eq!(original_list.len(), private_list.private_list.len());
}

#[test]
fn test_find_giftee() {
    // Alice, Bob and Charlie
    let player_1 = Player::init();
    let player_2 = Player::init();
    let player_3 = Player::init();
    let pub_keys = vec![
        player_1.pub_key.clone(),
        player_2.pub_key.clone(),
        player_3.pub_key.clone(),
    ];

    let private_list = PrivateList::init(&pub_keys).unwrap();

    match player_1.find_giftee(&private_list) {
        Ok(index) => {
            assert!(index <= pub_keys.len());
        }
        Err(e) => panic!("Expected Ok, got Err: {:?}", e),
    }
}

#[test]
fn three_players_cover_all_slots() {
    let players = vec![Player::init(), Player::init(), Player::init()];
    let pub_keys: Vec<PublicKey> = players.iter().map(|p| p.pub_key.clone()).collect();
    let mut private_list = PrivateList::init(&pub_keys).unwrap();

    // Any shuffle order is allowed; use one different from input order.
    private_list.secure_shuffle(&players[1]);
    private_list.secure_shuffle(&players[2]);
    private_list.secure_shuffle(&players[0]);

    let mut indices: Vec<usize> = players
        .iter()
        .map(|p| p.find_giftee(&private_list).unwrap())
        .collect();
    indices.sort();
    assert_eq!(indices, vec![1, 2, 3]);
}

#[test]
fn four_players_find_a_bijection() {
    let players = vec![
        Player::init(),
        Player::init(),
        Player::init(),
        Player::init(),
    ];
    let pub_keys: Vec<PublicKey> = players.iter().map(|p| p.pub_key.clone()).collect();
    let mut private_list = PrivateList::init(&pub_keys).unwrap();

    for player in &players {
        private_list.secure_shuffle(player);
    }

    let mut indices: Vec<usize> = players
        .iter()
        .map(|p| p.find_giftee(&private_list).unwrap())
        .collect();
    indices.sort();
    assert_eq!(indices, vec![1, 2, 3, 4]);
}

#[test]
fn single_player_still_finds_own_slot_after_shuffle() {
    let player = Player::init();
    let mut private_list = PrivateList::init(&[player.pub_key.clone()]).unwrap();
    private_list.secure_shuffle(&player);
    assert_eq!(player.find_giftee(&private_list), Ok(1));
}

#[test]
fn initialize_twice_yields_identical_ledgers() {
    let players = vec![Player::init(), Player::init()];
    let pub_keys: Vec<PublicKey> = players.iter().map(|p| p.pub_key.clone()).collect();

    let first = PrivateList::init(&pub_keys).unwrap();
    let second = PrivateList::init(&pub_keys).unwrap();

    assert_eq!(first.private_list, second.private_list);
    assert_eq!(first.g_s, second.g_s);
    assert_eq!(first.pp, second.pp);
}

#[test]
fn initialize_with_no_keys_fails() {
    let result = PrivateList::init(&[]);
    assert!(matches!(result, Err(AppError::EmptyPublicKeys)));
}

#[test]
fn initialize_with_mismatched_parameters_fails() {
    let player_1 = Player::init();
    let player_2 = Player::init();

    let good = player_1.pub_key.clone();
    let doctored = PublicKey {
        pp: GroupParams {
            p: player_2.pub_key.pp.p.clone(),
            q: &player_2.pub_key.pp.q + BigInt::from(1u64),
            g: player_2.pub_key.pp.g.clone(),
        },
        h: player_2.pub_key.h.clone(),
    };

    let result = PrivateList::init(&[good, doctored]);
    assert!(matches!(result, Err(AppError::MismatchedGroupParameters)));
}

#[test]
fn lookup_propagates_decryption_failure() {
    let player = Player::init();
    // A doctored ledger whose single entry lies outside the field.
    let list = PrivateList {
        private_list: vec![player.pub_key.pp.p.clone()],
        pp: player.pub_key.pp.clone(),
        g_s: player.pub_key.pp.g.clone(),
    };
    assert_eq!(
        player.find_giftee(&list),
        Err(AppError::DecryptionFailed(CipherError::OutOfField))
    );
}
