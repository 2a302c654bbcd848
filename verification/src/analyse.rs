//! Analyse typée d'un bloc de lignes : chaque ligne donne exactement une
//! rangée ; chaque cellule est contrainte au type de sa colonne, et toute
//! lecture qui échoue devient nulle sans jamais interrompre la rangée ni le
//! bloc.

use vstd::prelude::*;
use vstd::utf8::encode_utf8;
use crate::texte::{rogner, vers_chars, bornes_rognees};
use crate::nombres::{
    parse_i128_spec, parse_entier128, syntaxe_flottante, est_flottant_syntaxe,
};
use crate::utils::{est_jeton_null, est_null_texte, parse_bool_spec, parse_bool};
use crate::dates::{
    UniteTemps, spec_parse_date, parse_date_ymd, spec_parse_timestamp_ms, parse_timestamp_ms,
};
use crate::schema::{TypeColonne, SchemaColonnes, champ_ou_vide};
use crate::enregistrement::{vues_chaines, champs_csv, csv_analyser_ligne};

verus! {

/// Cellule booléenne : nulle pour un jeton nul ou une écriture non reconnue.
pub open spec fn spec_cellule_booleen(s: Seq<char>) -> Option<bool> {
    if est_jeton_null(s) {
        None
    } else {
        parse_bool_spec(s)
    }
}

pub fn cellule_booleen(v: &str) -> (r: Option<bool>)
    ensures
        r == spec_cellule_booleen(v@),
{
    if est_null_texte(v) {
        None
    } else {
        parse_bool(v)
    }
}

/// Cellule entière signée : la valeur rognée lue sur 128 bits, gardée si elle
/// tient dans `i64`, nulle sinon.
pub open spec fn spec_cellule_entier64(s: Seq<char>) -> Option<i64> {
    if est_jeton_null(s) {
        None
    } else {
        match parse_i128_spec(rogner(s)) {
            Some(x) => if (i64::MIN as i128) <= x && x <= (i64::MAX as i128) {
                Some(x as i64)
            } else {
                None
            },
            None => None,
        }
    }
}

pub fn cellule_entier64(v: &str) -> (r: Option<i64>)
    ensures
        r == spec_cellule_entier64(v@),
{
    if est_null_texte(v) {
        return None;
    }
    let cs = vers_chars(v);
    let (d, f) = bornes_rognees(&cs);
    match parse_entier128(&cs, d, f) {
        Some(x) => if (i64::MIN as i128) <= x && x <= (i64::MAX as i128) {
            Some(x as i64)
        } else {
            None
        },
        None => None,
    }
}

/// Cellule entière non signée : la valeur rognée lue sur 128 bits, gardée si
/// elle tient dans `u64`, nulle sinon.
pub open spec fn spec_cellule_nonsigne64(s: Seq<char>) -> Option<u64> {
    if est_jeton_null(s) {
        None
    } else {
        match parse_i128_spec(rogner(s)) {
            Some(x) => if 0 <= x && x <= (u64::MAX as i128) {
                Some(x as u64)
            } else {
                None
            },
            None => None,
        }
    }
}

pub fn cellule_nonsigne64(v: &str) -> (r: Option<u64>)
    ensures
        r == spec_cellule_nonsigne64(v@),
{
    if est_null_texte(v) {
        return None;
    }
    let cs = vers_chars(v);
    let (d, f) = bornes_rognees(&cs);
    match parse_entier128(&cs, d, f) {
        Some(x) => if 0 <= x && x <= (u64::MAX as i128) {
            Some(x as u64)
        } else {
            None
        },
        None => None,
    }
}

/// Cellule flottante : l'écriture d'origine est retenue si, rognée, elle
/// suit la syntaxe des flottants de std ; la valeur binaire et le test de
/// finitude appartiennent à l'appelant, la bibliothèque ne portant pas de
/// flottants.
pub open spec fn spec_cellule_flottant(s: Seq<char>) -> Option<Seq<char>> {
    if est_jeton_null(s) {
        None
    } else if syntaxe_flottante(rogner(s)) {
        Some(s)
    } else {
        None
    }
}

pub fn cellule_flottant(v: &str) -> (r: Option<String>)
    ensures
        vue_chaine_optionnelle(r) == spec_cellule_flottant(v@),
{
    if est_null_texte(v) {
        return None;
    }
    let cs = vers_chars(v);
    let (d, f) = bornes_rognees(&cs);
    if est_flottant_syntaxe(&cs, d, f) {
        Some(String::from_str(v))
    } else {
        None
    }
}

/// Cellule de date : le compte de jours signé depuis le 1970-01-01.
pub open spec fn spec_cellule_date(s: Seq<char>) -> Option<i32> {
    if est_jeton_null(s) {
        None
    } else {
        spec_parse_date(s)
    }
}

pub fn cellule_date(v: &str) -> (r: Option<i32>)
    ensures
        r == spec_cellule_date(v@),
{
    if est_null_texte(v) {
        None
    } else {
        parse_date_ymd(v)
    }
}

/// Division entière tronquée vers zéro, comme l'opérateur de Rust.
pub open spec fn div_tronquee(a: int, b: int) -> int {
    if a >= 0 {
        a / b
    } else {
        -((-a) / b)
    }
}

/// Remise à l'échelle des millisecondes vers l'unité de la colonne : la
/// seconde divise par 1000 en tronquant, la microseconde multiplie par 1000
/// et la nanoseconde par 1 000 000 ; un produit qui déborderait `i64` rend la
/// cellule nulle.
pub open spec fn spec_rescale_ms(ms: i64, u: UniteTemps) -> Option<i64> {
    match u {
        UniteTemps::Seconde => Some(div_tronquee(ms as int, 1000) as i64),
        UniteTemps::Milliseconde => Some(ms),
        UniteTemps::Microseconde => {
            let p = (ms as int) * 1000;
            if (i64::MIN as int) <= p <= (i64::MAX as int) {
                Some(p as i64)
            } else {
                None
            }
        },
        UniteTemps::Nanoseconde => {
            let p = (ms as int) * 1_000_000;
            if (i64::MIN as int) <= p <= (i64::MAX as int) {
                Some(p as i64)
            } else {
                None
            }
        },
    }
}

fn rescale_ms(ms: i64, u: UniteTemps) -> (r: Option<i64>)
    ensures
        r == spec_rescale_ms(ms, u),
{
    match u {
        UniteTemps::Seconde => {
            let m = ms as i128;
            let q: i128 = if m >= 0 {
                m / 1000
            } else {
                -((-m) / 1000)
            };
            Some(q as i64)
        },
        UniteTemps::Milliseconde => Some(ms),
        UniteTemps::Microseconde => {
            let p = (ms as i128) * 1000;
            if (i64::MIN as i128) <= p && p <= (i64::MAX as i128) {
                Some(p as i64)
            } else {
                None
            }
        },
        UniteTemps::Nanoseconde => {
            let p = (ms as i128) * 1_000_000;
            if (i64::MIN as i128) <= p && p <= (i64::MAX as i128) {
                Some(p as i64)
            } else {
                None
            }
        },
    }
}

/// Cellule d'horodatage : les millisecondes lues puis remises à l'échelle de
/// l'unité de la colonne.
pub open spec fn spec_cellule_horodatage(s: Seq<char>, u: UniteTemps) -> Option<i64> {
    if est_jeton_null(s) {
        None
    } else {
        match spec_parse_timestamp_ms(s) {
            Some(ms) => spec_rescale_ms(ms, u),
            None => None,
        }
    }
}

pub fn cellule_horodatage(v: &str, u: UniteTemps) -> (r: Option<i64>)
    ensures
        r == spec_cellule_horodatage(v@, u),
{
    if est_null_texte(v) {
        return None;
    }
    match parse_timestamp_ms(v) {
        Some(ms) => rescale_ms(ms, u),
        None => None,
    }
}

/// Cellule de texte : l'écriture d'origine, conservée telle quelle.
pub open spec fn spec_cellule_texte(s: Seq<char>) -> Option<Seq<char>> {
    if est_jeton_null(s) {
        None
    } else {
        Some(s)
    }
}

pub fn cellule_texte(v: &str) -> (r: Option<String>)
    ensures
        vue_chaine_optionnelle(r) == spec_cellule_texte(v@),
{
    if est_null_texte(v) {
        None
    } else {
        Some(String::from_str(v))
    }
}

/// Cellule binaire : les octets de l'écriture d'origine.
pub open spec fn spec_cellule_binaire(s: Seq<char>) -> Option<Seq<u8>> {
    if est_jeton_null(s) {
        None
    } else {
        Some(encode_utf8(s))
    }
}

pub fn cellule_binaire(v: &str) -> (r: Option<Vec<u8>>)
    ensures
        vue_octets_optionnels(r) == spec_cellule_binaire(v@),
{
    if est_null_texte(v) {
        None
    } else {
        Some(v.as_bytes_vec())
    }
}

/// Vue d'une cellule de texte.
pub open spec fn vue_chaine_optionnelle(o: Option<String>) -> Option<Seq<char>> {
    match o {
        Some(s) => Some(s@),
        None => None,
    }
}

/// Vue d'une cellule binaire.
pub open spec fn vue_octets_optionnels(o: Option<Vec<u8>>) -> Option<Seq<u8>> {
    match o {
        Some(v) => Some(v@),
        None => None,
    }
}

/// Texte brut de la cellule `(i, j)` d'un bloc : le champ `j` que csv découpe
/// dans la ligne `i`, la chaîne vide au-delà de la longueur de
/// l'enregistrement, et rien pour une ligne que csv ne découpe pas.
pub open spec fn texte_brut(lignes: Seq<Seq<char>>, delim: u8, i: int, j: int) -> Option<
    Seq<char>,
> {
    match champs_csv(lignes[i], delim) {
        Some(Some(fs)) => Some(champ_ou_vide(fs, j)),
        _ => None,
    }
}

/// Colonne typée d'un lot : des tableaux de cellules optionnelles, un par
/// type du treillis.
pub enum Colonne {
    Booleens(Vec<Option<bool>>),
    Entiers64(Vec<Option<i64>>),
    NonSignes64(Vec<Option<u64>>),
    Flottants64(Vec<Option<String>>),
    Dates32(Vec<Option<i32>>),
    Horodatages(UniteTemps, Vec<Option<i64>>),
    Textes(Vec<Option<String>>),
    GrandsTextes(Vec<Option<String>>),
    Binaires(Vec<Option<Vec<u8>>>),
    GrandsBinaires(Vec<Option<Vec<u8>>>),
}

/// La colonne `j` du lot est conforme au type `t` : sa longueur égale le
/// nombre de lignes et chaque cellule est la lecture typée du texte brut de
/// sa rangée, nulle quand la rangée n'a pas été découpée.
pub open spec fn colonne_conforme(
    col: Colonne,
    t: TypeColonne,
    lignes: Seq<Seq<char>>,
    delim: u8,
    j: int,
) -> bool {
    match (t, col) {
        (TypeColonne::Booleen, Colonne::Booleens(v)) => v@.len() == lignes.len() && forall|i: int|
            0 <= i < lignes.len() ==> v@[i] == match texte_brut(lignes, delim, i, j) {
                Some(s) => spec_cellule_booleen(s),
                None => None,
            },
        (TypeColonne::Entier64, Colonne::Entiers64(v)) => v@.len() == lignes.len() && forall|
            i: int,
        |
            0 <= i < lignes.len() ==> v@[i] == match texte_brut(lignes, delim, i, j) {
                Some(s) => spec_cellule_entier64(s),
                None => None,
            },
        (TypeColonne::NonSigne64, Colonne::NonSignes64(v)) => v@.len() == lignes.len() && forall|
            i: int,
        |
            0 <= i < lignes.len() ==> v@[i] == match texte_brut(lignes, delim, i, j) {
                Some(s) => spec_cellule_nonsigne64(s),
                None => None,
            },
        (TypeColonne::Flottant64, Colonne::Flottants64(v)) => v@.len() == lignes.len() && forall|
            i: int,
        |
            0 <= i < lignes.len() ==> vue_chaine_optionnelle(v@[i]) == match texte_brut(
                lignes,
                delim,
                i,
                j,
            ) {
                Some(s) => spec_cellule_flottant(s),
                None => None,
            },
        (TypeColonne::Date32, Colonne::Dates32(v)) => v@.len() == lignes.len() && forall|i: int|
            0 <= i < lignes.len() ==> v@[i] == match texte_brut(lignes, delim, i, j) {
                Some(s) => spec_cellule_date(s),
                None => None,
            },
        (TypeColonne::Horodatage(u), Colonne::Horodatages(uc, v)) => uc == u && v@.len()
            == lignes.len() && forall|i: int|
            0 <= i < lignes.len() ==> v@[i] == match texte_brut(lignes, delim, i, j) {
                Some(s) => spec_cellule_horodatage(s, u),
                None => None,
            },
        (TypeColonne::Utf8, Colonne::Textes(v)) => v@.len() == lignes.len() && forall|i: int|
            0 <= i < lignes.len() ==> vue_chaine_optionnelle(v@[i]) == match texte_brut(
                lignes,
                delim,
                i,
                j,
            ) {
                Some(s) => spec_cellule_texte(s),
                None => None,
            },
        (TypeColonne::GrandUtf8, Colonne::GrandsTextes(v)) => v@.len() == lignes.len() && forall|
            i: int,
        |
            0 <= i < lignes.len() ==> vue_chaine_optionnelle(v@[i]) == match texte_brut(
                lignes,
                delim,
                i,
                j,
            ) {
                Some(s) => spec_cellule_texte(s),
                None => None,
            },
        (TypeColonne::Binaire, Colonne::Binaires(v)) => v@.len() == lignes.len() && forall|i: int|
            0 <= i < lignes.len() ==> vue_octets_optionnels(v@[i]) == match texte_brut(
                lignes,
                delim,
                i,
                j,
            ) {
                Some(s) => spec_cellule_binaire(s),
                None => None,
            },
        (TypeColonne::GrandBinaire, Colonne::GrandsBinaires(v)) => v@.len() == lignes.len()
            && forall|i: int|
            0 <= i < lignes.len() ==> vue_octets_optionnels(v@[i]) == match texte_brut(
                lignes,
                delim,
                i,
                j,
            ) {
                Some(s) => spec_cellule_binaire(s),
                None => None,
            },
        _ => false,
    }
}

/// Genre d'une erreur récupérable au niveau d'une rangée.
#[derive(Clone, Copy, PartialEq, Eq, Structural, Debug)]
pub enum GenreErreurLigne {
    LectureCsv,
    NombreColonnes { attendu: usize, trouve: usize },
}

/// Erreur récupérable d'une rangée d'un bloc.
#[derive(Clone, Copy, PartialEq, Eq, Structural, Debug)]
pub struct ErreurLigne {
    pub indice_ligne: usize,
    pub genre: GenreErreurLigne,
}

/// Erreur que la rangée déclenche : une ligne que csv ne découpe pas est une
/// erreur de lecture ; un enregistrement d'une autre largeur que le schéma
/// est un écart de colonnes ; une ligne vide passe sans erreur.
pub open spec fn ligne_en_erreur(ligne: Seq<char>, delim: u8, nb: int) -> Option<GenreErreurLigne> {
    match champs_csv(ligne, delim) {
        None => Some(GenreErreurLigne::LectureCsv),
        Some(None) => None,
        Some(Some(fs)) => if fs.len() != nb {
            Some(
                GenreErreurLigne::NombreColonnes {
                    attendu: nb as usize,
                    trouve: fs.len() as usize,
                },
            )
        } else {
            None
        },
    }
}

/// Suite des erreurs d'un bloc, dans l'ordre des rangées.
pub open spec fn erreurs_attendues(lignes: Seq<Seq<char>>, delim: u8, nb: int) -> Seq<ErreurLigne>
    decreases lignes.len(),
{
    if lignes.len() == 0 {
        Seq::empty()
    } else {
        let avant = erreurs_attendues(lignes.drop_last(), delim, nb);
        match ligne_en_erreur(lignes.last(), delim, nb) {
            Some(g) => avant.push(
                ErreurLigne { indice_ligne: (lignes.len() - 1) as usize, genre: g },
            ),
            None => avant,
        }
    }
}

/// Image colonnaire typée d'un bloc : autant de rangées que de lignes, une
/// colonne par champ du schéma, et les erreurs récupérables rencontrées.
pub struct LotColonnes {
    pub nb_lignes: usize,
    pub colonnes: Vec<Colonne>,
    pub erreurs: Vec<ErreurLigne>,
}

/// Analyse un bloc de lignes selon le schéma : chaque ligne donne exactement
/// une rangée, dans l'ordre du bloc ; chaque cellule suit la lecture typée de
/// sa colonne ; les erreurs récupérables sont rendues, jamais levées.
pub fn analyser_bloc(bloc_lignes: &Vec<String>, schema: &SchemaColonnes, delimiteur: u8) -> (r:
    LotColonnes)
    ensures
        r.nb_lignes == bloc_lignes@.len(),
        r.colonnes@.len() == schema.champs@.len(),
        forall|j: int|
            0 <= j < schema.champs@.len() ==> colonne_conforme(
                #[trigger] r.colonnes@[j],
                schema.champs@[j].type_colonne,
                vues_chaines(bloc_lignes@),
                delimiteur,
                j,
            ),
        r.erreurs@ == erreurs_attendues(
            vues_chaines(bloc_lignes@),
            delimiteur,
            schema.champs@.len() as int,
        ),
{
    let ghost lv = vues_chaines(bloc_lignes@);
    let nb_lignes = bloc_lignes.len();
    let nb_colonnes = schema.champs.len();
    let mut enregistrements: Vec<Option<Vec<String>>> = Vec::new();
    let mut erreurs: Vec<ErreurLigne> = Vec::new();
    let mut i: usize = 0;
    while i < nb_lignes
        invariant
            i <= nb_lignes,
            nb_lignes == bloc_lignes@.len(),
            nb_colonnes == schema.champs@.len(),
            lv == vues_chaines(bloc_lignes@),
            enregistrements@.len() == i,
            forall|k: int|
                0 <= k < i ==> match #[trigger] enregistrements@[k] {
                    Some(vs) => champs_csv(lv[k], delimiteur) == Some(Some(vues_chaines(vs@))),
                    None => !(champs_csv(lv[k], delimiteur) matches Some(Some(_))),
                },
            erreurs@ == erreurs_attendues(
                lv.subrange(0, i as int),
                delimiteur,
                nb_colonnes as int,
            ),
        decreases nb_lignes - i,
    {
        proof {
            assert(lv[i as int] == bloc_lignes@[i as int]@);
            assert(lv.subrange(0, i + 1).drop_last() =~= lv.subrange(0, i as int));
            assert(lv.subrange(0, i + 1).last() == lv[i as int]);
        }
        match csv_analyser_ligne(bloc_lignes[i].as_str(), delimiteur) {
            None => {
                erreurs.push(
                    ErreurLigne { indice_ligne: i, genre: GenreErreurLigne::LectureCsv },
                );
                enregistrements.push(None);
            },
            Some(None) => {
                enregistrements.push(None);
            },
            Some(Some(rec)) => {
                if rec.len() != nb_colonnes {
                    erreurs.push(
                        ErreurLigne {
                            indice_ligne: i,
                            genre: GenreErreurLigne::NombreColonnes {
                                attendu: nb_colonnes,
                                trouve: rec.len(),
                            },
                        },
                    );
                }
                enregistrements.push(Some(rec));
            },
        }
        i += 1;
    }
    proof {
        assert(lv.subrange(0, nb_lignes as int) =~= lv);
    }
    let mut colonnes: Vec<Colonne> = Vec::new();
    let mut j: usize = 0;
    while j < nb_colonnes
        invariant
            j <= nb_colonnes,
            nb_lignes == bloc_lignes@.len(),
            nb_colonnes == schema.champs@.len(),
            lv == vues_chaines(bloc_lignes@),
            enregistrements@.len() == nb_lignes,
            forall|k: int|
                0 <= k < nb_lignes ==> match #[trigger] enregistrements@[k] {
                    Some(vs) => champs_csv(lv[k], delimiteur) == Some(Some(vues_chaines(vs@))),
                    None => !(champs_csv(lv[k], delimiteur) matches Some(Some(_))),
                },
            colonnes@.len() == j,
            forall|k: int|
                0 <= k < j ==> colonne_conforme(
                    #[trigger] colonnes@[k],
                    schema.champs@[k].type_colonne,
                    lv,
                    delimiteur,
                    k,
                ),
        decreases nb_colonnes - j,
    {
        let colonne = construire_colonne(
            bloc_lignes,
            &enregistrements,
            schema.champs[j].type_colonne,
            delimiteur,
            j,
            Ghost(lv),
        );
        colonnes.push(colonne);
        j += 1;
    }
    LotColonnes { nb_lignes, colonnes, erreurs }
}

/// Construit la colonne `j` d'un bloc dont les lignes sont déjà découpées.
fn construire_colonne(
    bloc_lignes: &Vec<String>,
    enregistrements: &Vec<Option<Vec<String>>>,
    t: TypeColonne,
    delimiteur: u8,
    j: usize,
    Ghost(lv): Ghost<Seq<Seq<char>>>,
) -> (r: Colonne)
    requires
        lv == vues_chaines(bloc_lignes@),
        enregistrements@.len() == bloc_lignes@.len(),
        forall|k: int|
            0 <= k < enregistrements@.len() ==> match #[trigger] enregistrements@[k] {
                Some(vs) => champs_csv(lv[k], delimiteur) == Some(Some(vues_chaines(vs@))),
                None => !(champs_csv(lv[k], delimiteur) matches Some(Some(_))),
            },
    ensures
        colonne_conforme(r, t, lv, delimiteur, j as int),
{
    let nb_lignes = enregistrements.len();
    match t {
        TypeColonne::Booleen => {
            let mut v: Vec<Option<bool>> = Vec::new();
            let mut i: usize = 0;
            while i < nb_lignes
                invariant
                    i <= nb_lignes,
                    nb_lignes == enregistrements@.len(),
                    lv == vues_chaines(bloc_lignes@),
                    enregistrements@.len() == bloc_lignes@.len(),
                    forall|k: int|
                        0 <= k < enregistrements@.len() ==> match #[trigger] enregistrements@[k] {
                            Some(vs) => champs_csv(lv[k], delimiteur) == Some(
                                Some(vues_chaines(vs@)),
                            ),
                            None => !(champs_csv(lv[k], delimiteur) matches Some(Some(_))),
                        },
                    v@.len() == i,
                    forall|k: int|
                        0 <= k < i ==> #[trigger] v@[k] == match texte_brut(
                            lv,
                            delimiteur,
                            k,
                            j as int,
                        ) {
                            Some(s) => spec_cellule_booleen(s),
                            None => None,
                        },
                decreases nb_lignes - i,
            {
                let c = match texte_cellule(enregistrements, i, j, Ghost(lv), Ghost(delimiteur)) {
                    Some(s) => cellule_booleen(s),
                    None => None,
                };
                v.push(c);
                i += 1;
            }
            Colonne::Booleens(v)
        },
        TypeColonne::Entier64 => {
            let mut v: Vec<Option<i64>> = Vec::new();
            let mut i: usize = 0;
            while i < nb_lignes
                invariant
                    i <= nb_lignes,
                    nb_lignes == enregistrements@.len(),
                    lv == vues_chaines(bloc_lignes@),
                    enregistrements@.len() == bloc_lignes@.len(),
                    forall|k: int|
                        0 <= k < enregistrements@.len() ==> match #[trigger] enregistrements@[k] {
                            Some(vs) => champs_csv(lv[k], delimiteur) == Some(
                                Some(vues_chaines(vs@)),
                            ),
                            None => !(champs_csv(lv[k], delimiteur) matches Some(Some(_))),
                        },
                    v@.len() == i,
                    forall|k: int|
                        0 <= k < i ==> #[trigger] v@[k] == match texte_brut(
                            lv,
                            delimiteur,
                            k,
                            j as int,
                        ) {
                            Some(s) => spec_cellule_entier64(s),
                            None => None,
                        },
                decreases nb_lignes - i,
            {
                let c = match texte_cellule(enregistrements, i, j, Ghost(lv), Ghost(delimiteur)) {
                    Some(s) => cellule_entier64(s),
                    None => None,
                };
                v.push(c);
                i += 1;
            }
            Colonne::Entiers64(v)
        },
        TypeColonne::NonSigne64 => {
            let mut v: Vec<Option<u64>> = Vec::new();
            let mut i: usize = 0;
            while i < nb_lignes
                invariant
                    i <= nb_lignes,
                    nb_lignes == enregistrements@.len(),
                    lv == vues_chaines(bloc_lignes@),
                    enregistrements@.len() == bloc_lignes@.len(),
                    forall|k: int|
                        0 <= k < enregistrements@.len() ==> match #[trigger] enregistrements@[k] {
                            Some(vs) => champs_csv(lv[k], delimiteur) == Some(
                                Some(vues_chaines(vs@)),
                            ),
                            None => !(champs_csv(lv[k], delimiteur) matches Some(Some(_))),
                        },
                    v@.len() == i,
                    forall|k: int|
                        0 <= k < i ==> #[trigger] v@[k] == match texte_brut(
                            lv,
                            delimiteur,
                            k,
                            j as int,
                        ) {
                            Some(s) => spec_cellule_nonsigne64(s),
                            None => None,
                        },
                decreases nb_lignes - i,
            {
                let c = match texte_cellule(enregistrements, i, j, Ghost(lv), Ghost(delimiteur)) {
                    Some(s) => cellule_nonsigne64(s),
                    None => None,
                };
                v.push(c);
                i += 1;
            }
            Colonne::NonSignes64(v)
        },
        TypeColonne::Flottant64 => {
            let mut v: Vec<Option<String>> = Vec::new();
            let mut i: usize = 0;
            while i < nb_lignes
                invariant
                    i <= nb_lignes,
                    nb_lignes == enregistrements@.len(),
                    lv == vues_chaines(bloc_lignes@),
                    enregistrements@.len() == bloc_lignes@.len(),
                    forall|k: int|
                        0 <= k < enregistrements@.len() ==> match #[trigger] enregistrements@[k] {
                            Some(vs) => champs_csv(lv[k], delimiteur) == Some(
                                Some(vues_chaines(vs@)),
                            ),
                            None => !(champs_csv(lv[k], delimiteur) matches Some(Some(_))),
                        },
                    v@.len() == i,
                    forall|k: int|
                        0 <= k < i ==> vue_chaine_optionnelle(#[trigger] v@[k]) == match texte_brut(
                            lv,
                            delimiteur,
                            k,
                            j as int,
                        ) {
                            Some(s) => spec_cellule_flottant(s),
                            None => None,
                        },
                decreases nb_lignes - i,
            {
                let c = match texte_cellule(enregistrements, i, j, Ghost(lv), Ghost(delimiteur)) {
                    Some(s) => cellule_flottant(s),
                    None => None,
                };
                v.push(c);
                i += 1;
            }
            Colonne::Flottants64(v)
        },
        TypeColonne::Date32 => {
            let mut v: Vec<Option<i32>> = Vec::new();
            let mut i: usize = 0;
            while i < nb_lignes
                invariant
                    i <= nb_lignes,
                    nb_lignes == enregistrements@.len(),
                    lv == vues_chaines(bloc_lignes@),
                    enregistrements@.len() == bloc_lignes@.len(),
                    forall|k: int|
                        0 <= k < enregistrements@.len() ==> match #[trigger] enregistrements@[k] {
                            Some(vs) => champs_csv(lv[k], delimiteur) == Some(
                                Some(vues_chaines(vs@)),
                            ),
                            None => !(champs_csv(lv[k], delimiteur) matches Some(Some(_))),
                        },
                    v@.len() == i,
                    forall|k: int|
                        0 <= k < i ==> #[trigger] v@[k] == match texte_brut(
                            lv,
                            delimiteur,
                            k,
                            j as int,
                        ) {
                            Some(s) => spec_cellule_date(s),
                            None => None,
                        },
                decreases nb_lignes - i,
            {
                let c = match texte_cellule(enregistrements, i, j, Ghost(lv), Ghost(delimiteur)) {
                    Some(s) => cellule_date(s),
                    None => None,
                };
                v.push(c);
                i += 1;
            }
            Colonne::Dates32(v)
        },
        TypeColonne::Horodatage(u) => {
            let mut v: Vec<Option<i64>> = Vec::new();
            let mut i: usize = 0;
            while i < nb_lignes
                invariant
                    i <= nb_lignes,
                    nb_lignes == enregistrements@.len(),
                    lv == vues_chaines(bloc_lignes@),
                    enregistrements@.len() == bloc_lignes@.len(),
                    forall|k: int|
                        0 <= k < enregistrements@.len() ==> match #[trigger] enregistrements@[k] {
                            Some(vs) => champs_csv(lv[k], delimiteur) == Some(
                                Some(vues_chaines(vs@)),
                            ),
                            None => !(champs_csv(lv[k], delimiteur) matches Some(Some(_))),
                        },
                    v@.len() == i,
                    forall|k: int|
                        0 <= k < i ==> #[trigger] v@[k] == match texte_brut(
                            lv,
                            delimiteur,
                            k,
                            j as int,
                        ) {
                            Some(s) => spec_cellule_horodatage(s, u),
                            None => None,
                        },
                decreases nb_lignes - i,
            {
                let c = match texte_cellule(enregistrements, i, j, Ghost(lv), Ghost(delimiteur)) {
                    Some(s) => cellule_horodatage(s, u),
                    None => None,
                };
                v.push(c);
                i += 1;
            }
            Colonne::Horodatages(u, v)
        },
        TypeColonne::Utf8 => {
            Colonne::Textes(
                construire_colonne_texte(
                    bloc_lignes,
                    enregistrements,
                    delimiteur,
                    j,
                    Ghost(lv),
                ),
            )
        },
        TypeColonne::GrandUtf8 => {
            Colonne::GrandsTextes(
                construire_colonne_texte(
                    bloc_lignes,
                    enregistrements,
                    delimiteur,
                    j,
                    Ghost(lv),
                ),
            )
        },
        TypeColonne::Binaire => {
            Colonne::Binaires(
                construire_colonne_binaire(
                    bloc_lignes,
                    enregistrements,
                    delimiteur,
                    j,
                    Ghost(lv),
                ),
            )
        },
        TypeColonne::GrandBinaire => {
            Colonne::GrandsBinaires(
                construire_colonne_binaire(
                    bloc_lignes,
                    enregistrements,
                    delimiteur,
                    j,
                    Ghost(lv),
                ),
            )
        },
    }
}

/// Texte brut de la cellule `(i, j)`, emprunté à l'enregistrement découpé.
fn texte_cellule<'a>(
    enregistrements: &'a Vec<Option<Vec<String>>>,
    i: usize,
    j: usize,
    Ghost(lv): Ghost<Seq<Seq<char>>>,
    Ghost(delimiteur): Ghost<u8>,
) -> (r: Option<&'a str>)
    requires
        i < enregistrements@.len(),
        match enregistrements@[i as int] {
            Some(vs) => champs_csv(lv[i as int], delimiteur) == Some(Some(vues_chaines(vs@))),
            None => !(champs_csv(lv[i as int], delimiteur) matches Some(Some(_))),
        },
    ensures
        match r {
            Some(s) => texte_brut(lv, delimiteur, i as int, j as int) == Some(s@),
            None => texte_brut(lv, delimiteur, i as int, j as int) is None,
        },
{
    match &enregistrements[i] {
        None => None,
        Some(vs) => {
            if j < vs.len() {
                proof {
                    assert(vues_chaines(vs@)[j as int] == vs@[j as int]@);
                }
                Some(vs[j].as_str())
            } else {
                proof {
                    reveal_strlit("");
                    assert(""@ =~= Seq::<char>::empty());
                }
                Some("")
            }
        },
    }
}

fn construire_colonne_texte(
    bloc_lignes: &Vec<String>,
    enregistrements: &Vec<Option<Vec<String>>>,
    delimiteur: u8,
    j: usize,
    Ghost(lv): Ghost<Seq<Seq<char>>>,
) -> (v: Vec<Option<String>>)
    requires
        lv == vues_chaines(bloc_lignes@),
        enregistrements@.len() == bloc_lignes@.len(),
        forall|k: int|
            0 <= k < enregistrements@.len() ==> match #[trigger] enregistrements@[k] {
                Some(vs) => champs_csv(lv[k], delimiteur) == Some(Some(vues_chaines(vs@))),
                None => !(champs_csv(lv[k], delimiteur) matches Some(Some(_))),
            },
    ensures
        v@.len() == lv.len(),
        forall|k: int|
            0 <= k < lv.len() ==> vue_chaine_optionnelle(#[trigger] v@[k]) == match texte_brut(
                lv,
                delimiteur,
                k,
                j as int,
            ) {
                Some(s) => spec_cellule_texte(s),
                None => None,
            },
{
    let nb_lignes = enregistrements.len();
    let mut v: Vec<Option<String>> = Vec::new();
    let mut i: usize = 0;
    while i < nb_lignes
        invariant
            i <= nb_lignes,
            nb_lignes == enregistrements@.len(),
            lv == vues_chaines(bloc_lignes@),
            enregistrements@.len() == bloc_lignes@.len(),
            forall|k: int|
                0 <= k < enregistrements@.len() ==> match #[trigger] enregistrements@[k] {
                    Some(vs) => champs_csv(lv[k], delimiteur) == Some(Some(vues_chaines(vs@))),
                    None => !(champs_csv(lv[k], delimiteur) matches Some(Some(_))),
                },
            v@.len() == i,
            forall|k: int|
                0 <= k < i ==> vue_chaine_optionnelle(#[trigger] v@[k]) == match texte_brut(
                    lv,
                    delimiteur,
                    k,
                    j as int,
                ) {
                    Some(s) => spec_cellule_texte(s),
                    None => None,
                },
        decreases nb_lignes - i,
    {
        let c = match texte_cellule(enregistrements, i, j, Ghost(lv), Ghost(delimiteur)) {
            Some(s) => cellule_texte(s),
            None => None,
        };
        v.push(c);
        i += 1;
    }
    v
}

fn construire_colonne_binaire(
    bloc_lignes: &Vec<String>,
    enregistrements: &Vec<Option<Vec<String>>>,
    delimiteur: u8,
    j: usize,
    Ghost(lv): Ghost<Seq<Seq<char>>>,
) -> (v: Vec<Option<Vec<u8>>>)
    requires
        lv == vues_chaines(bloc_lignes@),
        enregistrements@.len() == bloc_lignes@.len(),
        forall|k: int|
            0 <= k < enregistrements@.len() ==> match #[trigger] enregistrements@[k] {
                Some(vs) => champs_csv(lv[k], delimiteur) == Some(Some(vues_chaines(vs@))),
                None => !(champs_csv(lv[k], delimiteur) matches Some(Some(_))),
            },
    ensures
        v@.len() == lv.len(),
        forall|k: int|
            0 <= k < lv.len() ==> vue_octets_optionnels(#[trigger] v@[k]) == match texte_brut(
                lv,
                delimiteur,
                k,
                j as int,
            ) {
                Some(s) => spec_cellule_binaire(s),
                None => None,
            },
{
    let nb_lignes = enregistrements.len();
    let mut v: Vec<Option<Vec<u8>>> = Vec::new();
    let mut i: usize = 0;
    while i < nb_lignes
        invariant
            i <= nb_lignes,
            nb_lignes == enregistrements@.len(),
            lv == vues_chaines(bloc_lignes@),
            enregistrements@.len() == bloc_lignes@.len(),
            forall|k: int|
                0 <= k < enregistrements@.len() ==> match #[trigger] enregistrements@[k] {
                    Some(vs) => champs_csv(lv[k], delimiteur) == Some(Some(vues_chaines(vs@))),
                    None => !(champs_csv(lv[k], delimiteur) matches Some(Some(_))),
                },
            v@.len() == i,
            forall|k: int|
                0 <= k < i ==> vue_octets_optionnels(#[trigger] v@[k]) == match texte_brut(
                    lv,
                    delimiteur,
                    k,
                    j as int,
                ) {
                    Some(s) => spec_cellule_binaire(s),
                    None => None,
                },
        decreases nb_lignes - i,
    {
        let c = match texte_cellule(enregistrements, i, j, Ghost(lv), Ghost(delimiteur)) {
            Some(s) => cellule_binaire(s),
            None => None,
        };
        v.push(c);
        i += 1;
    }
    v
}

} // verus!
