//! Lois de la bibliothèque : propriétés générales des cellules typées et de
//! la normalisation des époques, énoncées et prouvées une fois pour toutes.

use vstd::prelude::*;
use vstd::arithmetic::div_mod::lemma_div_is_ordered;
use crate::texte::rogner;
use crate::nombres::{parse_i128_spec, nb_occurrences};
use crate::utils::{est_jeton_null, spec_detecter_delimiteur};
use crate::dates::{
    UniteTemps, spec_epoch_vers_ms, spec_parse_timestamp_ms, formats_horodatage_echouent,
};
use crate::schema::{
    StatistiquesColonne, TypeColonne, ratio_au_moins_milliemes, spec_choisir_type,
};
use crate::analyse::{
    spec_cellule_booleen, spec_cellule_entier64, spec_cellule_nonsigne64, spec_cellule_flottant,
    spec_cellule_date, spec_cellule_horodatage, spec_cellule_texte, spec_cellule_binaire,
};

verus! {

/// La chaîne vide est un jeton nul.
pub proof fn lemme_chaine_vide_est_jeton_null()
    ensures
        est_jeton_null(Seq::<char>::empty()),
{
    assert(rogner(Seq::<char>::empty()).len() == 0);
}

/// Un texte brut qui passe le test de jeton nul donne une cellule nulle,
/// quel que soit le type de la colonne.
pub proof fn lemme_jeton_null_rend_cellule_nulle(s: Seq<char>)
    requires
        est_jeton_null(s),
    ensures
        spec_cellule_booleen(s) is None,
        spec_cellule_entier64(s) is None,
        spec_cellule_nonsigne64(s) is None,
        spec_cellule_flottant(s) is None,
        spec_cellule_date(s) is None,
        forall|u: UniteTemps| #[trigger] spec_cellule_horodatage(s, u) is None,
        spec_cellule_texte(s) is None,
        spec_cellule_binaire(s) is None,
{
}

/// Idempotence de la projection nulle : une cellule nulle, réécrite comme
/// chaîne vide, ne redonne jamais une valeur à la relecture, quel que soit le
/// type de la colonne.
pub proof fn lemme_nul_reste_nul()
    ensures
        spec_cellule_booleen(Seq::<char>::empty()) is None,
        spec_cellule_entier64(Seq::<char>::empty()) is None,
        spec_cellule_nonsigne64(Seq::<char>::empty()) is None,
        spec_cellule_flottant(Seq::<char>::empty()) is None,
        spec_cellule_date(Seq::<char>::empty()) is None,
        forall|u: UniteTemps| #[trigger] spec_cellule_horodatage(Seq::<char>::empty(), u) is None,
        spec_cellule_texte(Seq::<char>::empty()) is None,
        spec_cellule_binaire(Seq::<char>::empty()) is None,
{
    lemme_chaine_vide_est_jeton_null();
    lemme_jeton_null_rend_cellule_nulle(Seq::<char>::empty());
}

/// Aller-retour des colonnes de texte : une valeur qui n'est pas un jeton nul
/// est retenue telle quelle, caractère pour caractère.
pub proof fn lemme_texte_aller_retour(s: Seq<char>)
    requires
        !est_jeton_null(s),
    ensures
        spec_cellule_texte(s) == Some(s),
{
}

/// Bornes des cellules entières signées : une cellule non nulle porte
/// exactement la valeur lue sur 128 bits, qui tient dans `i64`.
pub proof fn lemme_bornes_cellule_entier64(s: Seq<char>, v: i64)
    requires
        spec_cellule_entier64(s) == Some(v),
    ensures
        (i64::MIN as int) <= v as int <= (i64::MAX as int),
        parse_i128_spec(rogner(s)) == Some(v as i128),
{
}

/// Bornes des cellules entières non signées : une cellule non nulle porte
/// exactement la valeur lue sur 128 bits, qui tient dans `u64`.
pub proof fn lemme_bornes_cellule_nonsigne64(s: Seq<char>, v: u64)
    requires
        spec_cellule_nonsigne64(s) == Some(v),
    ensures
        0 <= v as int <= (u64::MAX as int),
        parse_i128_spec(rogner(s)) == Some(v as i128),
{
}

/// Seuil d'élection d'un horodatage : une colonne élit un horodatage si et
/// seulement si la part de ses valeurs reconnues comme horodatages atteint
/// 995 millièmes des valeurs non nulles.
pub proof fn lemme_seuil_horodatage(st: StatistiquesColonne)
    requires
        st.valeurs_non_nulles > 0,
    ensures
        ratio_au_moins_milliemes(
            st.nb_ts_s_ok as int + st.nb_ts_ms_ok as int + st.nb_ts_us_ok as int
                + st.nb_ts_ns_ok as int,
            st.valeurs_non_nulles as int,
            995,
        ) <==> (spec_choisir_type(st) matches TypeColonne::Horodatage(_)),
{
}

/// Sélection d'intervalle entier : pour une colonne entière qui a atteint les
/// seuils numériques sans syntaxe flottante ni élection antérieure, un
/// minimum positif avec un maximum au-delà de `i64::MAX` mais dans `u64`
/// élit le non signé, et tout maximum au-delà de `u64::MAX` élit le flottant.
pub proof fn lemme_selection_intervalle_entier(st: StatistiquesColonne)
    requires
        st.valeurs_non_nulles > 0,
        !st.syntaxe_flottante_vue,
        ratio_au_moins_milliemes(st.nb_f64_ok as int, st.valeurs_non_nulles as int, 980),
        ratio_au_moins_milliemes(st.nb_i128_ok as int, st.valeurs_non_nulles as int, 980),
        !ratio_au_moins_milliemes(
            st.nb_ts_s_ok as int + st.nb_ts_ms_ok as int + st.nb_ts_us_ok as int
                + st.nb_ts_ns_ok as int,
            st.valeurs_non_nulles as int,
            995,
        ),
        !ratio_au_moins_milliemes(st.nb_date_ok as int, st.valeurs_non_nulles as int, 995),
        !ratio_au_moins_milliemes(st.nb_booleen_ok as int, st.valeurs_non_nulles as int, 995),
    ensures
        0 <= st.min_i128 as int && (i64::MAX as int) < st.max_i128 as int <= (u64::MAX as int)
            ==> spec_choisir_type(st) == TypeColonne::NonSigne64,
        st.max_i128 as int > (u64::MAX as int) ==> spec_choisir_type(st)
            == TypeColonne::Flottant64,
{
}

/// Délimiteur par défaut : une première ligne sans aucun candidat donne la
/// virgule.
pub proof fn lemme_delimiteur_par_defaut(ligne: Seq<char>)
    requires
        nb_occurrences(ligne, ',') == 0,
        nb_occurrences(ligne, ';') == 0,
        nb_occurrences(ligne, '\t') == 0,
        nb_occurrences(ligne, '|') == 0,
        nb_occurrences(ligne, ':') == 0,
        nb_occurrences(ligne, ' ') == 0,
    ensures
        spec_detecter_delimiteur(ligne) == 44u8,
{
}

/// Deux époques entières tombent dans le même intervalle d'unité.
pub open spec fn meme_intervalle_epoch(x: int, y: int) -> bool {
    (1_000_000_000 <= x < 4_000_000_000 && 1_000_000_000 <= y < 4_000_000_000) || (
    1_000_000_000_000 <= x < 4_000_000_000_000 && 1_000_000_000_000 <= y < 4_000_000_000_000) || (
    1_000_000_000_000_000 <= x < 4_000_000_000_000_000 && 1_000_000_000_000_000 <= y
        < 4_000_000_000_000_000) || (x >= 1_000_000_000_000_000_000 && y
        >= 1_000_000_000_000_000_000)
}

/// Monotonie des époques : dans un même intervalle d'unité, des époques
/// croissantes donnent des millisecondes croissantes.
pub proof fn lemme_monotonie_epoch(x: i128, y: i128)
    requires
        x <= y,
        meme_intervalle_epoch(x as int, y as int),
        spec_epoch_vers_ms(Some(x)) is Some,
        spec_epoch_vers_ms(Some(y)) is Some,
    ensures
        spec_epoch_vers_ms(Some(x)).unwrap() <= spec_epoch_vers_ms(Some(y)).unwrap(),
{
    if 1_000_000_000_000_000 <= x as int && (x as int) < 4_000_000_000_000_000 {
        lemma_div_is_ordered(x as int, y as int, 1000);
    }
    if x as int >= 1_000_000_000_000_000_000 {
        lemma_div_is_ordered(x as int, y as int, 1_000_000);
    }
}

/// Monotonie des époques au niveau de la lecture d'horodatage : pour deux
/// écritures entières qu'aucun format textuel ne reconnaît, dont les valeurs
/// tombent dans le même intervalle d'unité, les millisecondes croissent avec
/// la valeur ; dès que celles de la plus grande existent, les deux lectures
/// réussissent. La croissance est stricte dans les intervalles de la seconde
/// et de la milliseconde.
pub proof fn lemme_monotonie_parse_timestamp(sx: Seq<char>, sy: Seq<char>, x: i128, y: i128)
    requires
        formats_horodatage_echouent(rogner(sx)),
        formats_horodatage_echouent(rogner(sy)),
        parse_i128_spec(rogner(sx)) == Some(x),
        parse_i128_spec(rogner(sy)) == Some(y),
        x <= y,
        meme_intervalle_epoch(x as int, y as int),
        spec_epoch_vers_ms(Some(y)) is Some,
    ensures
        spec_parse_timestamp_ms(sx) == spec_epoch_vers_ms(Some(x)),
        spec_parse_timestamp_ms(sy) == spec_epoch_vers_ms(Some(y)),
        spec_parse_timestamp_ms(sx) is Some,
        spec_parse_timestamp_ms(sy) is Some,
        spec_parse_timestamp_ms(sx).unwrap() <= spec_parse_timestamp_ms(sy).unwrap(),
        x < y && (x as int) < 4_000_000_000_000 ==> spec_parse_timestamp_ms(sx).unwrap()
            < spec_parse_timestamp_ms(sy).unwrap(),
{
    assert(rogner(sx).len() > 0);
    assert(rogner(sy).len() > 0);
    if x as int >= 1_000_000_000_000_000_000 {
        lemma_div_is_ordered(x as int, y as int, 1_000_000);
    }
    lemme_monotonie_epoch(x, y);
}

} // verus!
