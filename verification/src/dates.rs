//! Dates et horodatages : lectures textuelles confiées à chrono derrière des
//! enveloppes de confiance, détection d'unité de temps et normalisation des
//! époques entières en millisecondes.

use vstd::prelude::*;
use crate::texte::{rogner, rogner_texte, vers_chars, bornes_rognees};
use crate::nombres::{
    parse_i128_spec, parse_entier128, premier_indice_de, premier_indice, est_chiffre,
};

verus! {

/// Unité de temps d'une colonne d'horodatages.
#[derive(Clone, Copy, PartialEq, Eq, Structural, Debug)]
pub enum UniteTemps {
    Seconde,
    Milliseconde,
    Microseconde,
    Nanoseconde,
}

/// Jours depuis le 1970-01-01 de la date que `chrono::NaiveDate::parse_from_str`
/// lit dans `s` avec le format `format`, si cette lecture réussit.
pub uninterp spec fn jours_date_chrono(s: Seq<char>, format: Seq<char>) -> Option<i32>;

/// S'appuie sur `chrono::NaiveDate::parse_from_str` : la date lue ne dépend que
/// de la chaîne et du format ; `signed_duration_since` l'époque en donne les
/// jours, qui tiennent dans `i32` sur toute l'étendue de `NaiveDate`.
#[verifier::external_body]
fn date_en_jours(s: &str, format: &str) -> (r: Option<i32>)
    ensures
        r == jours_date_chrono(s@, format@),
{
    let epoque = chrono::NaiveDate::from_ymd_opt(1970, 1, 1);
    match (chrono::NaiveDate::parse_from_str(s, format), epoque) {
        (Ok(d), Some(e)) => i32::try_from(d.signed_duration_since(e).num_days()).ok(),
        _ => None,
    }
}

/// Millisecondes depuis l'époque de l'instant que
/// `chrono::NaiveDateTime::parse_from_str` lit dans `s` avec `format`.
pub uninterp spec fn ms_datetime_chrono(s: Seq<char>, format: Seq<char>) -> Option<i64>;

/// S'appuie sur `chrono::NaiveDateTime::parse_from_str` : l'instant lu ne
/// dépend que de la chaîne et du format ; `timestamp_millis` sur sa vue UTC en
/// donne les millisecondes depuis l'époque.
#[verifier::external_body]
fn datetime_en_ms(s: &str, format: &str) -> (r: Option<i64>)
    ensures
        r == ms_datetime_chrono(s@, format@),
{
    match chrono::NaiveDateTime::parse_from_str(s, format) {
        Ok(dt) => Some(dt.and_utc().timestamp_millis()),
        Err(_) => None,
    }
}

/// Vrai si `chrono::DateTime::parse_from_rfc3339` accepte `s`.
pub uninterp spec fn rfc3339_valide(s: Seq<char>) -> bool;

/// S'appuie sur `chrono::DateTime::parse_from_rfc3339` : l'acceptation ne
/// dépend que de la chaîne.
#[verifier::external_body]
fn est_rfc3339(s: &str) -> (r: bool)
    ensures
        r == rfc3339_valide(s@),
{
    chrono::DateTime::parse_from_rfc3339(s).is_ok()
}

/// Vrai si `chrono::DateTime::<FixedOffset>::parse_from_str` accepte `s` avec
/// le format `format`.
pub uninterp spec fn datetime_fuseau_valide(s: Seq<char>, format: Seq<char>) -> bool;

/// S'appuie sur `chrono::DateTime::<FixedOffset>::parse_from_str` :
/// l'acceptation ne dépend que de la chaîne et du format.
#[verifier::external_body]
fn est_datetime_fuseau(s: &str, format: &str) -> (r: bool)
    ensures
        r == datetime_fuseau_valide(s@, format@),
{
    chrono::DateTime::<chrono::FixedOffset>::parse_from_str(s, format).is_ok()
}

/// Jours depuis l'époque d'une date écrite `YYYY-MM-DD`, `DD/MM/YYYY` ou
/// `MM/DD/YYYY`, les formats essayés dans cet ordre sur la chaîne rognée ;
/// vide ou sans format reconnu, la lecture échoue.
pub open spec fn spec_parse_date(s: Seq<char>) -> Option<i32> {
    let t = rogner(s);
    if t.len() == 0 {
        None
    } else if jours_date_chrono(t, "%Y-%m-%d"@) is Some {
        jours_date_chrono(t, "%Y-%m-%d"@)
    } else if jours_date_chrono(t, "%d/%m/%Y"@) is Some {
        jours_date_chrono(t, "%d/%m/%Y"@)
    } else {
        jours_date_chrono(t, "%m/%d/%Y"@)
    }
}

/// Lit une date et rend son compte de jours signé depuis le 1970-01-01.
pub fn parse_date_ymd(v: &str) -> (r: Option<i32>)
    ensures
        r == spec_parse_date(v@),
{
    let t = rogner_texte(v);
    if t.unicode_len() == 0 {
        return None;
    }
    let j = date_en_jours(t, "%Y-%m-%d");
    if j.is_some() {
        return j;
    }
    let j = date_en_jours(t, "%d/%m/%Y");
    if j.is_some() {
        return j;
    }
    date_en_jours(t, "%m/%d/%Y")
}

/// Vrai si la chaîne rognée porte une date à l'un des trois formats acceptés.
pub open spec fn spec_est_date(s: Seq<char>) -> bool {
    let t = rogner(s);
    jours_date_chrono(t, "%Y-%m-%d"@) is Some || jours_date_chrono(t, "%d/%m/%Y"@) is Some
        || jours_date_chrono(t, "%m/%d/%Y"@) is Some
}

pub fn est_date_texte(valeur: &str) -> (r: bool)
    ensures
        r == spec_est_date(valeur@),
{
    let t = rogner_texte(valeur);
    date_en_jours(t, "%Y-%m-%d").is_some() || date_en_jours(t, "%d/%m/%Y").is_some()
        || date_en_jours(t, "%m/%d/%Y").is_some()
}

/// Nombre de chiffres au début de `s`.
pub open spec fn nb_chiffres_prefixe(s: Seq<char>) -> int
    decreases s.len(),
{
    if s.len() == 0 || !est_chiffre(s[0]) {
        0
    } else {
        1 + nb_chiffres_prefixe(s.drop_first())
    }
}

/// Précision fractionnelle d'un horodatage textuel : nombre de chiffres qui
/// suivent immédiatement le premier `.` de la chaîne rognée, s'il y en a.
pub open spec fn spec_precision_fractionnelle(s: Seq<char>) -> Option<int> {
    let t = rogner(s);
    let p = premier_indice_de(t, '.');
    if p >= t.len() {
        None
    } else {
        let n = nb_chiffres_prefixe(t.subrange(p + 1, t.len() as int));
        if n == 0 {
            None
        } else {
            Some(n)
        }
    }
}

/// Compte les chiffres qui suivent le premier point de la valeur.
pub fn precision_fractionnelle_datetime(texte: &str) -> (r: Option<usize>)
    ensures
        match r {
            Some(n) => spec_precision_fractionnelle(texte@) == Some(n as int),
            None => spec_precision_fractionnelle(texte@) is None,
        },
{
    let cs = vers_chars(texte);
    let (d, f) = bornes_rognees(&cs);
    let ghost t = rogner(texte@);
    let p = premier_indice(&cs, d, f, '.');
    if p >= f - d {
        return None;
    }
    let ghost apres = t.subrange(p + 1, t.len() as int);
    let debut: usize = d + p + 1;
    proof {
        assert(apres.subrange(0, apres.len() as int) =~= apres);
    }
    let mut n: usize = 0;
    while debut + n < f && 48 <= (cs[debut + n] as u32) && (cs[debut + n] as u32) <= 57
        invariant
            d + p + 1 == debut,
            debut <= debut + n <= f <= cs@.len(),
            t == cs@.subrange(d as int, f as int),
            apres == t.subrange(p + 1, t.len() as int),
            p + 1 <= t.len(),
            n <= apres.len(),
            forall|k: int| 0 <= k < n ==> est_chiffre(apres[k]),
            n < apres.len() ==> nb_chiffres_prefixe(apres) == n + nb_chiffres_prefixe(
                apres.subrange(n as int, apres.len() as int),
            ),
            n == apres.len() ==> nb_chiffres_prefixe(apres) == n,
        decreases f - (debut + n),
    {
        proof {
            let reste = apres.subrange(n as int, apres.len() as int);
            assert(reste[0] == cs@[debut + n]);
            assert(est_chiffre(reste[0]));
            assert(reste.drop_first() =~= apres.subrange(n + 1, apres.len() as int));
        }
        n += 1;
    }
    proof {
        if debut + n < f {
            let reste = apres.subrange(n as int, apres.len() as int);
            assert(reste[0] == cs@[debut + n]);
            assert(!est_chiffre(reste[0]));
            assert(nb_chiffres_prefixe(reste) == 0);
        }
        assert(nb_chiffres_prefixe(apres) == n);
    }
    if n == 0 {
        None
    } else {
        Some(n)
    }
}

/// Unité de temps déduite d'une précision fractionnelle : au moins 9 chiffres
/// donnent la nanoseconde, 6 la microseconde, 3 la milliseconde, sinon la
/// seconde.
pub open spec fn spec_unite_depuis_precision(precision: int) -> UniteTemps {
    if precision >= 9 {
        UniteTemps::Nanoseconde
    } else if precision >= 6 {
        UniteTemps::Microseconde
    } else if precision >= 3 {
        UniteTemps::Milliseconde
    } else {
        UniteTemps::Seconde
    }
}

pub fn unite_timestamp_depuis_precision(precision: usize) -> (r: UniteTemps)
    ensures
        r == spec_unite_depuis_precision(precision as int),
{
    if precision >= 9 {
        UniteTemps::Nanoseconde
    } else if precision >= 6 {
        UniteTemps::Microseconde
    } else if precision >= 3 {
        UniteTemps::Milliseconde
    } else {
        UniteTemps::Seconde
    }
}

/// Vrai si la chaîne rognée est un horodatage textuel reconnu : RFC 3339,
/// l'un des huit formats à fuseau, ou l'un des dix formats naïfs.
pub open spec fn spec_datetime_texte_reconnu(t: Seq<char>) -> bool {
    rfc3339_valide(t) || datetime_fuseau_valide(t, "%Y-%m-%d %H:%M:%S%:z"@)
        || datetime_fuseau_valide(t, "%Y-%m-%d %H:%M:%S%.f%:z"@) || datetime_fuseau_valide(
        t,
        "%Y-%m-%dT%H:%M:%S%:z"@,
    ) || datetime_fuseau_valide(t, "%Y-%m-%dT%H:%M:%S%.f%:z"@) || datetime_fuseau_valide(
        t,
        "%Y-%m-%d %H:%M:%S%z"@,
    ) || datetime_fuseau_valide(t, "%Y-%m-%d %H:%M:%S%.f%z"@) || datetime_fuseau_valide(
        t,
        "%Y-%m-%dT%H:%M:%S%z"@,
    ) || datetime_fuseau_valide(t, "%Y-%m-%dT%H:%M:%S%.f%z"@) || ms_datetime_chrono(
        t,
        "%Y-%m-%d %H:%M:%S"@,
    ) is Some || ms_datetime_chrono(t, "%Y-%m-%d %H:%M:%S%.3f"@) is Some || ms_datetime_chrono(
        t,
        "%Y-%m-%d %H:%M:%S%.6f"@,
    ) is Some || ms_datetime_chrono(t, "%Y-%m-%d %H:%M:%S%.9f"@) is Some || ms_datetime_chrono(
        t,
        "%Y-%m-%dT%H:%M:%S"@,
    ) is Some || ms_datetime_chrono(t, "%Y-%m-%dT%H:%M:%S%.3f"@) is Some || ms_datetime_chrono(
        t,
        "%Y-%m-%dT%H:%M:%S%.6f"@,
    ) is Some || ms_datetime_chrono(t, "%Y-%m-%dT%H:%M:%S%.9f"@) is Some || ms_datetime_chrono(
        t,
        "%d/%m/%Y %H:%M:%S"@,
    ) is Some || ms_datetime_chrono(t, "%Y/%m/%d %H:%M:%S"@) is Some
}

/// Unité d'un horodatage textuel : si un format textuel est reconnu, l'unité
/// suit la précision fractionnelle ; sans chiffre fractionnel la précision
/// vaut zéro et l'unité est la seconde.
pub open spec fn spec_unite_datetime_texte(s: Seq<char>) -> Option<UniteTemps> {
    let t = rogner(s);
    if spec_datetime_texte_reconnu(t) {
        Some(
            spec_unite_depuis_precision(
                match spec_precision_fractionnelle(t) {
                    Some(n) => n,
                    None => 0,
                },
            ),
        )
    } else {
        None
    }
}

pub fn detecter_unite_datetime_texte(valeur: &str) -> (r: Option<UniteTemps>)
    ensures
        r == spec_unite_datetime_texte(valeur@),
{
    let t = rogner_texte(valeur);
    let reconnu = est_rfc3339(t) || est_datetime_fuseau(t, "%Y-%m-%d %H:%M:%S%:z")
        || est_datetime_fuseau(t, "%Y-%m-%d %H:%M:%S%.f%:z") || est_datetime_fuseau(
        t,
        "%Y-%m-%dT%H:%M:%S%:z",
    ) || est_datetime_fuseau(t, "%Y-%m-%dT%H:%M:%S%.f%:z") || est_datetime_fuseau(
        t,
        "%Y-%m-%d %H:%M:%S%z",
    ) || est_datetime_fuseau(t, "%Y-%m-%d %H:%M:%S%.f%z") || est_datetime_fuseau(
        t,
        "%Y-%m-%dT%H:%M:%S%z",
    ) || est_datetime_fuseau(t, "%Y-%m-%dT%H:%M:%S%.f%z") || datetime_en_ms(
        t,
        "%Y-%m-%d %H:%M:%S",
    ).is_some() || datetime_en_ms(t, "%Y-%m-%d %H:%M:%S%.3f").is_some() || datetime_en_ms(
        t,
        "%Y-%m-%d %H:%M:%S%.6f",
    ).is_some() || datetime_en_ms(t, "%Y-%m-%d %H:%M:%S%.9f").is_some() || datetime_en_ms(
        t,
        "%Y-%m-%dT%H:%M:%S",
    ).is_some() || datetime_en_ms(t, "%Y-%m-%dT%H:%M:%S%.3f").is_some() || datetime_en_ms(
        t,
        "%Y-%m-%dT%H:%M:%S%.6f",
    ).is_some() || datetime_en_ms(t, "%Y-%m-%dT%H:%M:%S%.9f").is_some() || datetime_en_ms(
        t,
        "%d/%m/%Y %H:%M:%S",
    ).is_some() || datetime_en_ms(t, "%Y/%m/%d %H:%M:%S").is_some();
    if !reconnu {
        return None;
    }
    let precision: usize = match precision_fractionnelle_datetime(t) {
        Some(n) => n,
        None => 0,
    };
    Some(unite_timestamp_depuis_precision(precision))
}

/// Unité d'une époque entière, déduite de son amplitude : moins de 1e11 donne
/// la seconde, moins de 1e14 la milliseconde, moins de 1e17 la microseconde,
/// au-delà la nanoseconde ; une écriture non entière échoue.
pub open spec fn spec_unite_epoch(s: Seq<char>) -> Option<UniteTemps> {
    let t = rogner(s);
    match parse_i128_spec(t) {
        None => None,
        Some(x) => {
            let a = if x < 0 {
                -(x as int)
            } else {
                x as int
            };
            if a < 100_000_000_000 {
                Some(UniteTemps::Seconde)
            } else if a < 100_000_000_000_000 {
                Some(UniteTemps::Milliseconde)
            } else if a < 100_000_000_000_000_000 {
                Some(UniteTemps::Microseconde)
            } else {
                Some(UniteTemps::Nanoseconde)
            }
        },
    }
}

pub fn detecter_unite_epoch(valeur: &str) -> (r: Option<UniteTemps>)
    ensures
        r == spec_unite_epoch(valeur@),
{
    let cs = vers_chars(valeur);
    let (d, f) = bornes_rognees(&cs);
    let x = match parse_entier128(&cs, d, f) {
        Some(x) => x,
        None => {
            return None;
        },
    };
    if x == i128::MIN {
        return Some(UniteTemps::Nanoseconde);
    }
    let a: i128 = if x < 0 {
        -x
    } else {
        x
    };
    if a < 100_000_000_000 {
        Some(UniteTemps::Seconde)
    } else if a < 100_000_000_000_000 {
        Some(UniteTemps::Milliseconde)
    } else if a < 100_000_000_000_000_000 {
        Some(UniteTemps::Microseconde)
    } else {
        Some(UniteTemps::Nanoseconde)
    }
}

/// Unité d'un horodatage : la lecture textuelle d'abord, l'époque entière
/// ensuite.
pub open spec fn spec_unite_timestamp(s: Seq<char>) -> Option<UniteTemps> {
    match spec_unite_datetime_texte(s) {
        Some(u) => Some(u),
        None => spec_unite_epoch(s),
    }
}

pub fn detecter_unite_timestamp(valeur: &str) -> (r: Option<UniteTemps>)
    ensures
        r == spec_unite_timestamp(valeur@),
{
    match detecter_unite_datetime_texte(valeur) {
        Some(u) => Some(u),
        None => detecter_unite_epoch(valeur),
    }
}

/// Millisecondes depuis l'époque d'un horodatage : les six formats textuels
/// essayés dans l'ordre, puis la normalisation d'une époque entière d'après
/// son intervalle : `[1e9, 4e9)` secondes, `[1e12, 4e12)` millisecondes,
/// `[1e15, 4e15)` microsecondes, `[1e18, ∞)` nanosecondes ; hors de ces
/// intervalles, ou si les millisecondes déborderaient `i64`, la lecture
/// échoue.
pub open spec fn spec_parse_timestamp_ms(s: Seq<char>) -> Option<i64> {
    let t = rogner(s);
    if t.len() == 0 {
        None
    } else if ms_datetime_chrono(t, "%Y-%m-%d %H:%M:%S%.f"@) is Some {
        ms_datetime_chrono(t, "%Y-%m-%d %H:%M:%S%.f"@)
    } else if ms_datetime_chrono(t, "%Y-%m-%dT%H:%M:%S%.f"@) is Some {
        ms_datetime_chrono(t, "%Y-%m-%dT%H:%M:%S%.f"@)
    } else if ms_datetime_chrono(t, "%Y-%m-%d %H:%M:%S"@) is Some {
        ms_datetime_chrono(t, "%Y-%m-%d %H:%M:%S"@)
    } else if ms_datetime_chrono(t, "%Y-%m-%dT%H:%M:%S"@) is Some {
        ms_datetime_chrono(t, "%Y-%m-%dT%H:%M:%S"@)
    } else if ms_datetime_chrono(t, "%d/%m/%Y %H:%M:%S"@) is Some {
        ms_datetime_chrono(t, "%d/%m/%Y %H:%M:%S"@)
    } else if ms_datetime_chrono(t, "%Y/%m/%d %H:%M:%S"@) is Some {
        ms_datetime_chrono(t, "%Y/%m/%d %H:%M:%S"@)
    } else {
        spec_epoch_vers_ms(parse_i128_spec(t))
    }
}

/// Vrai si aucun des six formats textuels de lecture d'horodatage ne
/// reconnaît la chaîne : la lecture passe alors par l'époque entière.
pub open spec fn formats_horodatage_echouent(t: Seq<char>) -> bool {
    ms_datetime_chrono(t, "%Y-%m-%d %H:%M:%S%.f"@) is None && ms_datetime_chrono(
        t,
        "%Y-%m-%dT%H:%M:%S%.f"@,
    ) is None && ms_datetime_chrono(t, "%Y-%m-%d %H:%M:%S"@) is None && ms_datetime_chrono(
        t,
        "%Y-%m-%dT%H:%M:%S"@,
    ) is None && ms_datetime_chrono(t, "%d/%m/%Y %H:%M:%S"@) is None && ms_datetime_chrono(
        t,
        "%Y/%m/%d %H:%M:%S"@,
    ) is None
}

/// Normalisation en millisecondes d'une époque entière, selon l'intervalle où
/// elle tombe.
pub open spec fn spec_epoch_vers_ms(e: Option<i128>) -> Option<i64> {
    match e {
        None => None,
        Some(x) => {
            if 1_000_000_000 <= x < 4_000_000_000 {
                Some((x * 1000) as i64)
            } else if 1_000_000_000_000 <= x < 4_000_000_000_000 {
                Some(x as i64)
            } else if 1_000_000_000_000_000 <= x < 4_000_000_000_000_000 {
                Some((x / 1000) as i64)
            } else if x >= 1_000_000_000_000_000_000 {
                if x / 1_000_000 <= i64::MAX {
                    Some((x / 1_000_000) as i64)
                } else {
                    None
                }
            } else {
                None
            }
        },
    }
}

/// Lit un horodatage et rend ses millisecondes signées depuis l'époque.
pub fn parse_timestamp_ms(v: &str) -> (r: Option<i64>)
    ensures
        r == spec_parse_timestamp_ms(v@),
{
    let t = rogner_texte(v);
    if t.unicode_len() == 0 {
        return None;
    }
    let m = datetime_en_ms(t, "%Y-%m-%d %H:%M:%S%.f");
    if m.is_some() {
        return m;
    }
    let m = datetime_en_ms(t, "%Y-%m-%dT%H:%M:%S%.f");
    if m.is_some() {
        return m;
    }
    let m = datetime_en_ms(t, "%Y-%m-%d %H:%M:%S");
    if m.is_some() {
        return m;
    }
    let m = datetime_en_ms(t, "%Y-%m-%dT%H:%M:%S");
    if m.is_some() {
        return m;
    }
    let m = datetime_en_ms(t, "%d/%m/%Y %H:%M:%S");
    if m.is_some() {
        return m;
    }
    let m = datetime_en_ms(t, "%Y/%m/%d %H:%M:%S");
    if m.is_some() {
        return m;
    }
    let cs = vers_chars(t);
    let n = cs.len();
    proof {
        assert(cs@.subrange(0, n as int) =~= cs@);
    }
    let x = match parse_entier128(&cs, 0, n) {
        Some(x) => x,
        None => {
            return None;
        },
    };
    if 1_000_000_000 <= x && x < 4_000_000_000 {
        Some((x as i64) * 1000)
    } else if 1_000_000_000_000 <= x && x < 4_000_000_000_000 {
        Some(x as i64)
    } else if 1_000_000_000_000_000 <= x && x < 4_000_000_000_000_000 {
        Some((x / 1000) as i64)
    } else if x >= 1_000_000_000_000_000_000 {
        let q = x / 1_000_000;
        if q <= (i64::MAX as i128) {
            Some(q as i64)
        } else {
            None
        }
    } else {
        None
    }
}

} // verus!
