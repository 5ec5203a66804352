use cashtx::similarity::{contact_similarity, Similarity};

#[test]
fn identical_strings_score_one() {
    let s = contact_similarity("Acme Supplies", "Acme Supplies");
    assert_eq!(s, Similarity { common: 13, longest: 13 });
    assert!(s.is_plausible());
}

#[test]
fn disjoint_strings_score_zero() {
    let s = contact_similarity("abc", "xyz");
    assert_eq!(s, Similarity { common: 0, longest: 3 });
    assert!(!s.is_plausible());
}

#[test]
fn comparison_is_case_sensitive() {
    let s = contact_similarity("ACME SUPPLIES", "Acme Supplies Ltd");
    assert_eq!(s, Similarity { common: 4, longest: 17 });
    assert!(s.is_plausible());
}

#[test]
fn counts_characters_not_bytes() {
    let s = contact_similarity("Café", "Cafe");
    assert_eq!(s, Similarity { common: 3, longest: 4 });
}

#[test]
fn threshold_is_inclusive() {
    assert!(Similarity { common: 1, longest: 5 }.is_plausible());
    assert!(Similarity { common: 2000, longest: 10000 }.is_plausible());
    assert!(!Similarity { common: 1999, longest: 10000 }.is_plausible());
    assert!(Similarity { common: 0, longest: 0 }.is_plausible());
}
