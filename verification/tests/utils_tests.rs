use tabular_to_parquet::utils::{
    est_null_texte, parse_bool, detecter_delimiteur, erreur, avertissement, succes, chemin,
    construire_chemin_sortie_parquet,
};
use tabular_to_parquet::dates::{parse_date_ymd, parse_timestamp_ms};

#[test]
fn test_est_null_texte() {
    assert!(est_null_texte(""));
    assert!(est_null_texte(" "));
    assert!(est_null_texte("NULL"));
    assert!(est_null_texte("NaN"));
    assert!(!est_null_texte("0"));
    assert!(!est_null_texte("false"));
}

#[test]
fn test_parse_bool() {
    assert_eq!(parse_bool("true"), Some(true));
    assert_eq!(parse_bool("FALSE"), Some(false));
    assert_eq!(parse_bool("1"), Some(true));
    assert_eq!(parse_bool("0"), Some(false));
    assert_eq!(parse_bool("yes"), Some(true));
    assert_eq!(parse_bool("no"), Some(false));
    assert_eq!(parse_bool("maybe"), None);
}

#[test]
fn test_parse_date_ymd() {
    let d1 = parse_date_ymd("1970-01-01").unwrap();
    let d2 = parse_date_ymd("02/01/1970").unwrap();
    assert_eq!(d1, 0);
    assert_eq!(d2, 1);
    assert!(parse_date_ymd("invalid").is_none());
}

#[test]
fn test_parse_timestamp_ms() {
    let t1 = parse_timestamp_ms("1970-01-01 00:00:01").unwrap();
    assert_eq!(t1, 1_000);

    let t2 = parse_timestamp_ms("1000000000").unwrap();
    assert_eq!(t2, 1_000_000_000_000);

    assert!(parse_timestamp_ms("invalid").is_none());
}

#[test]
fn test_parse_timestamp_ms_intervalles_epoch() {
    assert_eq!(parse_timestamp_ms("1700000000"), Some(1_700_000_000_000));
    assert_eq!(parse_timestamp_ms("1700000000000"), Some(1_700_000_000_000));
    assert_eq!(parse_timestamp_ms("1700000000000000"), Some(1_700_000_000_000));
    assert_eq!(parse_timestamp_ms("1700000000000000000"), Some(1_700_000_000_000));
    assert_eq!(parse_timestamp_ms("999999999"), None);
    assert_eq!(parse_timestamp_ms("4000000000"), None);
}

#[test]
fn test_monotonie_epoch_concrete() {
    let a = parse_timestamp_ms("1700000000").unwrap();
    let b = parse_timestamp_ms("1700000001").unwrap();
    assert!(a < b);
    let c = parse_timestamp_ms("1700000000000001").unwrap();
    let d = parse_timestamp_ms("1700000000000999").unwrap();
    assert!(c <= d);
}

#[test]
fn test_detecter_delimiteur() {
    assert_eq!(detecter_delimiteur("a,b,c"), b',');
    assert_eq!(detecter_delimiteur("a;b;c"), b';');
    assert_eq!(detecter_delimiteur("a\tb\tc"), b'\t');
    assert_eq!(detecter_delimiteur("a|b|c"), b'|');
    assert_eq!(detecter_delimiteur("x;y;z,w"), b';');
}

#[test]
fn test_detecter_delimiteur_sans_candidat() {
    assert_eq!(detecter_delimiteur("abc"), b',');
    assert_eq!(detecter_delimiteur(""), b',');
}

#[test]
fn test_messages_colores() {
    assert_eq!(erreur("probleme", false), "probleme");
    assert_eq!(erreur("probleme", true), "\u{1b}[31;1mprobleme\u{1b}[0m");
    assert_eq!(avertissement("gare", true), "\u{1b}[33mgare\u{1b}[0m");
    assert_eq!(succes("fini", true), "\u{1b}[32mfini\u{1b}[0m");
    assert_eq!(chemin("a/b.parquet", true), "\u{1b}[36ma/b.parquet\u{1b}[0m");
    assert_eq!(chemin("a/b.parquet", false), "a/b.parquet");
}

#[test]
fn test_construire_chemin_sortie_parquet() {
    assert_eq!(construire_chemin_sortie_parquet("donnees/ventes.csv"), "donnees/ventes.parquet");
    assert_eq!(construire_chemin_sortie_parquet("ventes.csv"), "ventes.parquet");
    assert_eq!(construire_chemin_sortie_parquet("sans_extension"), "sans_extension.parquet");
    assert_eq!(construire_chemin_sortie_parquet("a/b/archive.tar.gz"), "a/b/archive.tar.parquet");
    assert_eq!(construire_chemin_sortie_parquet(".cache"), ".cache.parquet");
}
