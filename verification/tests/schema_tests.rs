use tabular_to_parquet::schema::{
    inferer_schema, schema_rendre_tout_nullable, StatistiquesColonne, TypeColonne, SchemaColonnes,
    ChampSchema,
};
use tabular_to_parquet::dates::UniteTemps;

fn lignes(contenu: &[&str]) -> Vec<String> {
    contenu.iter().map(|l| l.to_string()).collect()
}

#[test]
fn test_inferer_schema_simple() {
    let csv = lignes(&["a,b,c", "1,2,3", "4,5,6"]);

    let schema = inferer_schema(&csv, b',', true).unwrap();

    assert_eq!(schema.champs.len(), 3);
    assert_eq!(schema.champs[0].type_colonne, TypeColonne::NonSigne64);
    assert_eq!(schema.champs[1].type_colonne, TypeColonne::NonSigne64);
    assert_eq!(schema.champs[2].type_colonne, TypeColonne::NonSigne64);
}

#[test]
fn test_inferer_schema_mixte() {
    let csv = lignes(&["a,b,c", "true,2024-01-01,3.14", "false,2024-01-02,2.71"]);

    let schema = inferer_schema(&csv, b',', true).unwrap();

    assert_eq!(schema.champs[0].type_colonne, TypeColonne::Booleen);
    assert_eq!(schema.champs[1].type_colonne, TypeColonne::Date32);
    assert_eq!(schema.champs[2].type_colonne, TypeColonne::Flottant64);
}

#[test]
fn test_inferer_schema_noms_et_nullabilite() {
    let csv = lignes(&["x;y", "1;2"]);
    let schema = inferer_schema(&csv, b';', false).unwrap();
    assert_eq!(schema.champs[0].nom, "x");
    assert_eq!(schema.champs[1].nom, "y");
    assert!(schema.champs[0].nullable);
    assert!(schema.champs[1].nullable);
}

#[test]
fn test_seuil_horodatage_exact() {
    let mut st = StatistiquesColonne::nouvelle();
    for _ in 0..995 {
        st.observer_valeur("2024-01-01 00:00:00");
    }
    for _ in 0..5 {
        st.observer_valeur("zzz");
    }
    assert_eq!(
        st.choisir_type_large(),
        TypeColonne::Horodatage(UniteTemps::Seconde)
    );

    let mut sous = StatistiquesColonne::nouvelle();
    for _ in 0..994 {
        sous.observer_valeur("2024-01-01 00:00:00");
    }
    for _ in 0..6 {
        sous.observer_valeur("zzz");
    }
    assert_eq!(sous.choisir_type_large(), TypeColonne::GrandUtf8);
}

#[test]
fn test_selection_entiers_non_signes() {
    let mut st = StatistiquesColonne::nouvelle();
    st.observer_valeur("9223372036854775808");
    assert_eq!(st.choisir_type_large(), TypeColonne::NonSigne64);
}

#[test]
fn test_selection_entier_avec_negatif() {
    let mut st = StatistiquesColonne::nouvelle();
    for _ in 0..999 {
        st.observer_valeur("5");
    }
    st.observer_valeur("-3");
    assert_eq!(st.choisir_type_large(), TypeColonne::Entier64);
}

#[test]
fn test_selection_flottant_hors_bornes() {
    let mut st = StatistiquesColonne::nouvelle();
    st.observer_valeur("18446744073709551616");
    assert_eq!(st.choisir_type_large(), TypeColonne::Flottant64);
}

#[test]
fn test_horodatage_rfc3339() {
    let mut st = StatistiquesColonne::nouvelle();
    st.observer_valeur("2024-01-01T00:00:00+00:00");
    assert_eq!(
        st.choisir_type_large(),
        TypeColonne::Horodatage(UniteTemps::Seconde)
    );
}

#[test]
fn test_unite_milliseconde_par_precision() {
    let mut st = StatistiquesColonne::nouvelle();
    st.observer_valeur("2024-01-01 00:00:00.123");
    assert_eq!(
        st.choisir_type_large(),
        TypeColonne::Horodatage(UniteTemps::Milliseconde)
    );
}

#[test]
fn test_unite_microseconde_par_precision() {
    let mut st = StatistiquesColonne::nouvelle();
    st.observer_valeur("2024-01-01 00:00:00.123456");
    assert_eq!(
        st.choisir_type_large(),
        TypeColonne::Horodatage(UniteTemps::Microseconde)
    );
}

#[test]
fn test_echantillonnage_borne() {
    let mut contenu: Vec<String> = vec!["a".to_string()];
    for _ in 0..1000 {
        contenu.push("7".to_string());
    }
    contenu.push("pas un nombre".to_string());
    let schema = inferer_schema(&contenu, b',', false).unwrap();
    assert_eq!(schema.champs[0].type_colonne, TypeColonne::NonSigne64);

    let schema_complet = inferer_schema(&contenu, b',', true).unwrap();
    assert_eq!(schema_complet.champs[0].type_colonne, TypeColonne::NonSigne64);
}

#[test]
fn test_schema_rendre_tout_nullable() {
    let schema = SchemaColonnes {
        champs: vec![
            ChampSchema {
                nom: "a".to_string(),
                type_colonne: TypeColonne::Entier64,
                nullable: false,
            },
            ChampSchema {
                nom: "b".to_string(),
                type_colonne: TypeColonne::GrandUtf8,
                nullable: true,
            },
        ],
    };
    let tout_nullable = schema_rendre_tout_nullable(schema);
    assert_eq!(tout_nullable.champs.len(), 2);
    assert!(tout_nullable.champs[0].nullable);
    assert!(tout_nullable.champs[1].nullable);
    assert_eq!(tout_nullable.champs[0].nom, "a");
    assert_eq!(tout_nullable.champs[0].type_colonne, TypeColonne::Entier64);
}

#[test]
fn test_inference_pure_deux_passes() {
    let csv = lignes(&["a,b", "1,x", "2,y", "3.5,z"]);
    let premier = inferer_schema(&csv, b',', true).unwrap();
    let second = inferer_schema(&csv, b',', true).unwrap();
    assert_eq!(premier.champs.len(), second.champs.len());
    for (c1, c2) in premier.champs.iter().zip(second.champs.iter()) {
        assert_eq!(c1.nom, c2.nom);
        assert_eq!(c1.type_colonne, c2.type_colonne);
    }
    assert_eq!(premier.champs[0].type_colonne, TypeColonne::Flottant64);
    assert_eq!(premier.champs[1].type_colonne, TypeColonne::GrandUtf8);
}
