use montyhall::config::Error;
use montyhall::rng::Gna;
use montyhall::selector::choix;
use montyhall::selector::choix_autre;
use montyhall::selector::choix_autre_autre;
use montyhall::selector::select;
use montyhall::trial::Jeu;

/// Test de la fonction choix_exclu()
#[test]
fn test_exclu_0() {
    let mut jeu = Jeu::new(3);

    let r = 1..=3;
    for _ in 0..100 {
        let t = jeu.choix_exclu(None, None);
        assert!(r.contains(&t));
    }
}

/// Test de la fonction choix_exclu()
#[test]
fn test_exclu_1() {
    let mut jeu = Jeu::new(3);

    let r = jeu.choix_exclu(Some(1), None);
    assert!(r == 2 || r == 3);

    let r = jeu.choix_exclu(Some(2), None);
    assert!(r == 1 || r == 3);

    let r = jeu.choix_exclu(Some(3), None);
    assert!(r == 1 || r == 2);

    let r = jeu.choix_exclu(None, Some(1));
    assert!(r == 2 || r == 3);

    let r = jeu.choix_exclu(None, Some(2));
    assert!(r == 1 || r == 3);

    let r = jeu.choix_exclu(None, Some(3));
    assert!(r == 1 || r == 2);
}

/// Test de la fonction choix_exclu(Some())
#[test]
fn test_exclu_2() {
    let mut jeu = Jeu::new(3);

    assert_eq!(jeu.choix_exclu(Some(1), Some(2)), 3);
    assert_eq!(jeu.choix_exclu(Some(2), Some(1)), 3);
    assert_eq!(jeu.choix_exclu(Some(1), Some(3)), 2);
    assert_eq!(jeu.choix_exclu(Some(3), Some(1)), 2);
    assert_eq!(jeu.choix_exclu(Some(2), Some(3)), 1);
    assert_eq!(jeu.choix_exclu(Some(3), Some(2)), 1);
}

#[test]
fn select_stays_in_range_and_off_the_exclusions() {
    let mut gna = Gna::new();
    let excluded = vec![2u32, 5u32];
    for _ in 0..300 {
        let d = select(&mut gna, 6, &excluded).unwrap();
        assert!((1..=6).contains(&d));
        assert!(d != 2 && d != 5);
    }
    let excluded = vec![4u32, 1u32, 3u32];
    for _ in 0..300 {
        let d = select(&mut gna, 4, &excluded).unwrap();
        assert_eq!(d, 2);
    }
    let empty: Vec<u32> = Vec::new();
    for _ in 0..300 {
        let d = select(&mut gna, 3, &empty).unwrap();
        assert!((1..=3).contains(&d));
    }
}

#[test]
fn select_fails_only_when_every_door_is_excluded() {
    let mut gna = Gna::new();
    let excluded = vec![3u32, 1u32, 2u32];
    assert_eq!(select(&mut gna, 3, &excluded), Err(Error::ExhaustedCandidates));
    let excluded = vec![1u32];
    assert_eq!(select(&mut gna, 1, &excluded), Err(Error::ExhaustedCandidates));
}

#[test]
fn rejection_draws_stay_in_range_and_off_the_exclusions() {
    let mut gna = Gna::new();
    for _ in 0..300 {
        let r = choix(&mut gna, 3);
        assert!((1..=3).contains(&r));
        let r = choix_autre(&mut gna, 3, 2);
        assert!(r == 1 || r == 3);
        let r = choix_autre_autre(&mut gna, 3, 1, 3);
        assert_eq!(r, 2);
        let r = choix_autre_autre(&mut gna, 5, 2, 4);
        assert!(r == 1 || r == 3 || r == 5);
    }
}

#[test]
fn full_range_draw_reaches_every_door() {
    let mut gna = Gna::new();
    let mut seen = [false; 3];
    for _ in 0..300 {
        let r = gna.randrange(1, 3);
        assert!((1..=3).contains(&r));
        seen[(r - 1) as usize] = true;
    }
    assert!(seen[0] && seen[1] && seen[2]);
    assert_eq!(gna.randrange(7, 7), 7);
}

#[test]
fn remapping_and_rejection_agree_in_distribution() {
    // both strategies, same exclusion set {2, 4} over five doors: the
    // frequencies over the candidates {1, 3, 5} must agree within a
    // tolerance far wider than the sampling noise
    let mut gna = Gna::new();
    let excluded = vec![2u32, 4u32];
    let n = 30000;
    let mut by_select = [0u32; 6];
    let mut by_reject = [0u32; 6];
    for _ in 0..n {
        let d = select(&mut gna, 5, &excluded).unwrap();
        by_select[(d - 1) as usize] += 1;
        let r = choix_autre_autre(&mut gna, 5, 2, 4);
        by_reject[(r - 1) as usize] += 1;
    }
    assert_eq!(by_select[1], 0);
    assert_eq!(by_select[3], 0);
    assert_eq!(by_reject[1], 0);
    assert_eq!(by_reject[3], 0);
    for door in [0usize, 2, 4] {
        let p = f64::from(by_select[door]) / f64::from(n);
        let q = f64::from(by_reject[door]) / f64::from(n);
        assert!((p - 1.0 / 3.0).abs() < 0.02, "select frequency {p} at door {door}");
        assert!((q - 1.0 / 3.0).abs() < 0.02, "rejection frequency {q} at door {door}");
    }
}
