use tabular_to_parquet::conversion::{
    taille_bloc_pour, DecoupeurBlocs, TamponReordonnancement, FenetreDebit,
};

#[test]
fn test_taille_bloc_pour() {
    assert_eq!(taille_bloc_pour(1), 250_000);
    assert_eq!(taille_bloc_pour(20), 250_000);
    assert_eq!(taille_bloc_pour(21), 150_000);
    assert_eq!(taille_bloc_pour(50), 150_000);
    assert_eq!(taille_bloc_pour(51), 5_000);
}

#[test]
fn test_decoupeur_blocs() {
    let mut decoupeur = DecoupeurBlocs::nouvelle(2);
    assert!(decoupeur.pousser_ligne("l1".to_string()).is_none());
    let (i0, b0) = decoupeur.pousser_ligne("l2".to_string()).unwrap();
    assert_eq!(i0, 0);
    assert_eq!(b0, vec!["l1".to_string(), "l2".to_string()]);
    assert!(decoupeur.pousser_ligne("l3".to_string()).is_none());
    let (i1, b1) = decoupeur.pousser_ligne("l4".to_string()).unwrap();
    assert_eq!(i1, 1);
    assert_eq!(b1, vec!["l3".to_string(), "l4".to_string()]);
    assert!(decoupeur.pousser_ligne("l5".to_string()).is_none());
    let (i2, b2) = decoupeur.terminer().unwrap();
    assert_eq!(i2, 2);
    assert_eq!(b2, vec!["l5".to_string()]);
}

#[test]
fn test_decoupeur_sans_reste() {
    let mut decoupeur = DecoupeurBlocs::nouvelle(1);
    let (i0, _) = decoupeur.pousser_ligne("seule".to_string()).unwrap();
    assert_eq!(i0, 0);
    assert!(decoupeur.terminer().is_none());
}

#[test]
fn test_tampon_reordonnancement() {
    let mut tampon: TamponReordonnancement<&str> = TamponReordonnancement::nouvelle();
    assert!(tampon.prochain_pret().is_none());
    tampon.inserer(1, "lot 1");
    assert!(tampon.prochain_pret().is_none());
    tampon.inserer(2, "lot 2");
    assert!(!tampon.contient_indice(0));
    tampon.inserer(0, "lot 0");
    assert!(tampon.contient_indice(0));
    assert_eq!(tampon.prochain_pret(), Some("lot 0"));
    assert_eq!(tampon.prochain_pret(), Some("lot 1"));
    assert_eq!(tampon.prochain_pret(), Some("lot 2"));
    assert!(tampon.prochain_pret().is_none());
}

#[test]
fn test_fenetre_debit() {
    let mut fenetre = FenetreDebit::nouvelle();
    assert!(fenetre.estimer().is_none());
    fenetre.pousser(0, 0);
    assert!(fenetre.estimer().is_none());
    fenetre.pousser(1000, 500);
    assert_eq!(fenetre.estimer(), Some(500));
}

#[test]
fn test_fenetre_debit_elagage() {
    let mut fenetre = FenetreDebit::nouvelle();
    fenetre.pousser(0, 0);
    fenetre.pousser(5000, 100);
    fenetre.pousser(5500, 200);
    assert_eq!(fenetre.estimer(), Some(200));
}

#[test]
fn test_fenetre_debit_minimum_un() {
    let mut fenetre = FenetreDebit::nouvelle();
    fenetre.pousser(0, 0);
    fenetre.pousser(2000, 1);
    assert_eq!(fenetre.estimer(), Some(1));
}
