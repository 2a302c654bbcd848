use tabular_to_parquet::analyse::{
    analyser_bloc, cellule_booleen, cellule_date, cellule_entier64, cellule_flottant,
    cellule_horodatage, cellule_nonsigne64, cellule_texte, Colonne, GenreErreurLigne,
};
use tabular_to_parquet::dates::UniteTemps;
use tabular_to_parquet::schema::{ChampSchema, SchemaColonnes, TypeColonne};

fn schema_de(types: &[TypeColonne]) -> SchemaColonnes {
    SchemaColonnes {
        champs: types
            .iter()
            .enumerate()
            .map(|(i, t)| ChampSchema {
                nom: format!("c{i}"),
                type_colonne: *t,
                nullable: true,
            })
            .collect(),
    }
}

fn lignes(contenu: &[&str]) -> Vec<String> {
    contenu.iter().map(|l| l.to_string()).collect()
}

#[test]
fn test_analyser_bloc_simple() {
    let bloc = lignes(&["1,true,2024-01-01", "2,false,2024-01-02"]);

    let schema = schema_de(&[TypeColonne::Entier64, TypeColonne::Booleen, TypeColonne::Date32]);

    let lot = analyser_bloc(&bloc, &schema, b',');

    assert_eq!(lot.nb_lignes, 2);
    assert_eq!(lot.colonnes.len(), 3);
}

#[test]
fn test_analyser_bloc_cellules() {
    let bloc = lignes(&["1,true,2024-01-01", "2,false,2024-01-02"]);
    let schema = schema_de(&[TypeColonne::Entier64, TypeColonne::Booleen, TypeColonne::Date32]);
    let lot = analyser_bloc(&bloc, &schema, b',');

    match &lot.colonnes[0] {
        Colonne::Entiers64(v) => assert_eq!(v.as_slice(), &[Some(1), Some(2)]),
        _ => panic!("colonne entiere attendue"),
    }
    match &lot.colonnes[1] {
        Colonne::Booleens(v) => assert_eq!(v.as_slice(), &[Some(true), Some(false)]),
        _ => panic!("colonne booleenne attendue"),
    }
    match &lot.colonnes[2] {
        Colonne::Dates32(v) => {
            assert_eq!(v.len(), 2);
            assert_eq!(v[1].unwrap() - v[0].unwrap(), 1);
        },
        _ => panic!("colonne de dates attendue"),
    }
    assert!(lot.erreurs.is_empty());
}

#[test]
fn test_jetons_nuls_sur_quatre_colonnes() {
    let bloc = lignes(&[",NULL,NaN,n/a"]);
    let schema = schema_de(&[
        TypeColonne::GrandUtf8,
        TypeColonne::GrandUtf8,
        TypeColonne::GrandUtf8,
        TypeColonne::GrandUtf8,
    ]);
    let lot = analyser_bloc(&bloc, &schema, b',');
    assert_eq!(lot.nb_lignes, 1);
    for colonne in &lot.colonnes {
        match colonne {
            Colonne::GrandsTextes(v) => {
                assert_eq!(v.len(), 1);
                assert!(v[0].is_none());
            },
            _ => panic!("colonne de texte attendue"),
        }
    }
}

#[test]
fn test_ecart_nombre_colonnes() {
    let bloc = lignes(&["1,2"]);
    let schema = schema_de(&[
        TypeColonne::NonSigne64,
        TypeColonne::NonSigne64,
        TypeColonne::NonSigne64,
    ]);
    let lot = analyser_bloc(&bloc, &schema, b',');

    assert_eq!(lot.nb_lignes, 1);
    assert_eq!(lot.erreurs.len(), 1);
    assert_eq!(lot.erreurs[0].indice_ligne, 0);
    assert_eq!(
        lot.erreurs[0].genre,
        GenreErreurLigne::NombreColonnes { attendu: 3, trouve: 2 }
    );
    match &lot.colonnes[0] {
        Colonne::NonSignes64(v) => assert_eq!(v.as_slice(), &[Some(1)]),
        _ => panic!("colonne non signee attendue"),
    }
    match &lot.colonnes[2] {
        Colonne::NonSignes64(v) => assert_eq!(v.as_slice(), &[None]),
        _ => panic!("colonne non signee attendue"),
    }
}

#[test]
fn test_champ_entre_guillemets() {
    let bloc = lignes(&["\"a,b\",c"]);
    let schema = schema_de(&[TypeColonne::GrandUtf8, TypeColonne::GrandUtf8]);
    let lot = analyser_bloc(&bloc, &schema, b',');
    match &lot.colonnes[0] {
        Colonne::GrandsTextes(v) => assert_eq!(v[0].as_deref(), Some("a,b")),
        _ => panic!("colonne de texte attendue"),
    }
    match &lot.colonnes[1] {
        Colonne::GrandsTextes(v) => assert_eq!(v[0].as_deref(), Some("c")),
        _ => panic!("colonne de texte attendue"),
    }
}

#[test]
fn test_cellule_epoch_millisecondes() {
    assert_eq!(
        cellule_horodatage("1700000000000", UniteTemps::Milliseconde),
        Some(1_700_000_000_000)
    );
    assert_eq!(
        cellule_horodatage("1700000000000", UniteTemps::Seconde),
        Some(1_700_000_000)
    );
    assert_eq!(
        cellule_horodatage("1700000000000", UniteTemps::Microseconde),
        Some(1_700_000_000_000_000)
    );
    assert_eq!(
        cellule_horodatage("1700000000000", UniteTemps::Nanoseconde),
        Some(1_700_000_000_000_000_000)
    );
}

#[test]
fn test_cellules_entieres_bornees() {
    assert_eq!(cellule_entier64("42"), Some(42));
    assert_eq!(cellule_entier64("-42"), Some(-42));
    assert_eq!(cellule_entier64("9223372036854775808"), None);
    assert_eq!(cellule_nonsigne64("9223372036854775808"), Some(9223372036854775808));
    assert_eq!(cellule_nonsigne64("-1"), None);
    assert_eq!(cellule_nonsigne64("18446744073709551616"), None);
}

#[test]
fn test_cellule_booleenne_et_nulle() {
    assert_eq!(cellule_booleen("yes"), Some(true));
    assert_eq!(cellule_booleen("off"), Some(false));
    assert_eq!(cellule_booleen("NULL"), None);
    assert_eq!(cellule_booleen("peut-etre"), None);
}

#[test]
fn test_cellule_date_invalide_nulle() {
    assert_eq!(cellule_date("1970-01-01"), Some(0));
    assert_eq!(cellule_date("invalid"), None);
    assert_eq!(cellule_date(""), None);
}

#[test]
fn test_cellule_texte_aller_retour() {
    assert_eq!(cellule_texte("bonjour"), Some("bonjour".to_string()));
    assert_eq!(cellule_texte("  garde les espaces  "), Some("  garde les espaces  ".to_string()));
    assert_eq!(cellule_texte("n/a"), None);
}

#[test]
fn test_cellule_flottante_syntaxe() {
    assert_eq!(cellule_flottant("3.14"), Some("3.14".to_string()));
    assert_eq!(cellule_flottant("-2.5e3"), Some("-2.5e3".to_string()));
    assert_eq!(cellule_flottant("abc"), None);
    assert_eq!(cellule_flottant("NaN"), None);
    assert_eq!(cellule_flottant("inf"), Some("inf".to_string()));
}
