//! Lecture d'un enregistrement délimité : la découpe d'une ligne en champs est
//! confiée au lecteur du crate csv, en mode souple et sans en-têtes.

use vstd::prelude::*;

verus! {

/// Vues des chaînes d'une suite.
pub open spec fn vues_chaines(s: Seq<String>) -> Seq<Seq<char>> {
    s.map_values(|x: String| x@)
}

/// Champs que le lecteur csv découpe dans `ligne` avec le délimiteur donné :
/// l'extérieur `None` est une erreur de lecture, l'intérieur `None` une ligne
/// sans enregistrement (ligne vide, que csv saute).
pub uninterp spec fn champs_csv(ligne: Seq<char>, delim: u8) -> Option<Option<Seq<Seq<char>>>>;

/// S'appuie sur `csv::ReaderBuilder` et `csv::Reader::read_record` : en mode
/// souple, sans en-têtes, la découpe d'une ligne ne dépend que de ses
/// caractères et du délimiteur. `Ok(false)` signale qu'aucun enregistrement
/// n'a été lu.
#[verifier::external_body]
pub(crate) fn csv_analyser_ligne(ligne: &str, delimiteur: u8) -> (r: Option<Option<Vec<String>>>)
    ensures
        match r {
            None => champs_csv(ligne@, delimiteur) is None,
            Some(None) => champs_csv(ligne@, delimiteur) == Some(None::<Seq<Seq<char>>>),
            Some(Some(rec)) => champs_csv(ligne@, delimiteur) == Some(Some(vues_chaines(rec@))),
        },
{
    let mut lecteur = csv::ReaderBuilder::new()
        .delimiter(delimiteur)
        .has_headers(false)
        .flexible(true)
        .from_reader(ligne.as_bytes());
    let mut enregistrement = csv::StringRecord::new();
    match lecteur.read_record(&mut enregistrement) {
        Err(_) => None,
        Ok(false) => Some(None),
        Ok(true) => Some(Some(enregistrement.iter().map(|c| c.to_string()).collect())),
    }
}

} // verus!
