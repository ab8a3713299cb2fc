//! Shamir sharing and reconstruction, and the key-generation invariant:
//! the reconstructed secrets land exactly on the published `G2` keys.

use t_siris::group::g2_mul;
use t_siris::keygen::keygen;
use t_siris::rng::SeedRng;
use t_siris::scalar::Scalar;
use t_siris::shamir::{generate_shares, reconstruct_secret};

#[test]
fn test_shamir_secret_sharing_basic() {
    let mut rng = SeedRng::from_u64(21);

    let secret = rng.next_scalar();
    let threshold = 3;
    let num_shares = 5;

    let shares = generate_shares(&secret, threshold, num_shares, &mut rng);
    assert_eq!(shares.len(), num_shares);

    let first: Vec<(usize, Scalar)> = shares[0..threshold].to_vec();
    let reconstructed_secret = reconstruct_secret(&first, threshold);
    assert!(reconstructed_secret.equals(&secret));
}

#[test]
fn test_shamir_any_subset_reconstructs() {
    let mut rng = SeedRng::from_u64(22);
    let secret = rng.next_scalar();
    let shares = generate_shares(&secret, 3, 5, &mut rng);
    // a non-contiguous subset of size three
    let subset = vec![shares[0].clone(), shares[2].clone(), shares[4].clone()];
    let reconstructed = reconstruct_secret(&subset, 3);
    assert!(reconstructed.equals(&secret));
    // threshold one returns the constant polynomial directly
    let single = generate_shares(&secret, 1, 2, &mut rng);
    let lone = vec![single[1].clone()];
    assert!(reconstruct_secret(&lone, 1).equals(&secret));
}

#[test]
fn test_dist_keygen() {
    let mut rng = SeedRng::from_u64(23);
    let threshold = 2;
    let n_participants = 5;
    let l_attributes = 3;

    let (ck, vk, ts_keys) = keygen(threshold, n_participants, l_attributes, &mut rng);

    assert_eq!(ts_keys.sk_shares.len(), n_participants);
    assert_eq!(ts_keys.vk_shares.len(), n_participants);

    for i in 0..n_participants {
        assert_eq!(ts_keys.sk_shares[i].y_shares.len(), l_attributes);
        assert_eq!(ts_keys.vk_shares[i].g_tilde_y_shares.len(), l_attributes);
    }

    // reconstruct x from threshold + 1 participants
    let subset_indices: Vec<usize> = (0..threshold + 1).collect();
    let x_shares_subset: Vec<(usize, Scalar)> = subset_indices
        .iter()
        .map(|&i| (ts_keys.sk_shares[i].index, ts_keys.sk_shares[i].x_share.clone()))
        .collect();
    let reconstructed_x = reconstruct_secret(&x_shares_subset, threshold + 1);

    let computed_g_tilde_x = g2_mul(&ck.g_tilde, &reconstructed_x);
    assert!(
        computed_g_tilde_x.equals(&vk.g_tilde_x),
        "Reconstructed x verification failed"
    );

    for k in 0..l_attributes {
        let y_k_shares_subset: Vec<(usize, Scalar)> = subset_indices
            .iter()
            .map(|&i| (ts_keys.sk_shares[i].index, ts_keys.sk_shares[i].y_shares[k].clone()))
            .collect();
        let reconstructed_y_k = reconstruct_secret(&y_k_shares_subset, threshold + 1);
        let computed_g_tilde_y_k = g2_mul(&ck.g_tilde, &reconstructed_y_k);
        assert!(
            computed_g_tilde_y_k.equals(&ck.ck_tilde[k]),
            "Reconstructed y_{} verification failed",
            k
        );
    }
}
