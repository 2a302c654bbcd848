//! Jetons nuls, booléens textuels, détection de délimiteur, messages colorés
//! et dérivation du chemin de sortie.

use vstd::prelude::*;
use crate::texte::{
    rogner, minuscules, vers_chars, bornes_rognees, minuscules_tranche, egale_chaine,
};
use crate::nombres::nb_occurrences;
use crate::nombres::compte_occurrences;

verus! {

/// Valeur manquante : une fois rognée, la chaîne est vide ou vaut, sans
/// distinction de casse, `null`, `none`, `nan`, `n/a` ou `na`.
pub open spec fn est_jeton_null(s: Seq<char>) -> bool {
    let t = rogner(s);
    let m = minuscules(t);
    t.len() == 0 || m == "null"@ || m == "none"@ || m == "nan"@ || m == "n/a"@ || m == "na"@
}

/// Décide si `v` est un jeton nul.
pub fn est_null_texte(v: &str) -> (r: bool)
    ensures
        r == est_jeton_null(v@),
{
    let cs = vers_chars(v);
    let (d, f) = bornes_rognees(&cs);
    if d == f {
        return true;
    }
    let m = minuscules_tranche(&cs, d, f);
    egale_chaine(&m, "null") || egale_chaine(&m, "none") || egale_chaine(&m, "nan")
        || egale_chaine(&m, "n/a") || egale_chaine(&m, "na")
}

/// Lecture d'un booléen textuel : rognée et en minuscules, la chaîne doit
/// être l'un des jetons vrais (`true`, `1`, `t`, `y`, `yes`, `on`) ou faux
/// (`false`, `0`, `f`, `n`, `no`, `off`).
pub open spec fn parse_bool_spec(s: Seq<char>) -> Option<bool> {
    let m = minuscules(rogner(s));
    if m == "true"@ || m == "1"@ || m == "t"@ || m == "y"@ || m == "yes"@ || m == "on"@ {
        Some(true)
    } else if m == "false"@ || m == "0"@ || m == "f"@ || m == "n"@ || m == "no"@ || m == "off"@ {
        Some(false)
    } else {
        None
    }
}

pub fn parse_bool(v: &str) -> (r: Option<bool>)
    ensures
        r == parse_bool_spec(v@),
{
    let cs = vers_chars(v);
    let (d, f) = bornes_rognees(&cs);
    let m = minuscules_tranche(&cs, d, f);
    if egale_chaine(&m, "true") || egale_chaine(&m, "1") || egale_chaine(&m, "t") || egale_chaine(
        &m,
        "y",
    ) || egale_chaine(&m, "yes") || egale_chaine(&m, "on") {
        Some(true)
    } else if egale_chaine(&m, "false") || egale_chaine(&m, "0") || egale_chaine(&m, "f")
        || egale_chaine(&m, "n") || egale_chaine(&m, "no") || egale_chaine(&m, "off") {
        Some(false)
    } else {
        None
    }
}

/// Délimiteur élu pour une première ligne : parmi `,`, `;`, tabulation, `|`,
/// `:` et espace, le candidat le plus fréquent, le premier de la liste en cas
/// d'égalité ; une ligne sans candidat donne donc `,`.
pub open spec fn spec_detecter_delimiteur(ligne: Seq<char>) -> u8 {
    let a = nb_occurrences(ligne, ',');
    let b = nb_occurrences(ligne, ';');
    let c = nb_occurrences(ligne, '\t');
    let d = nb_occurrences(ligne, '|');
    let e = nb_occurrences(ligne, ':');
    let f = nb_occurrences(ligne, ' ');
    if a >= b && a >= c && a >= d && a >= e && a >= f {
        44u8
    } else if b >= c && b >= d && b >= e && b >= f {
        59u8
    } else if c >= d && c >= e && c >= f {
        9u8
    } else if d >= e && d >= f {
        124u8
    } else if e >= f {
        58u8
    } else {
        32u8
    }
}

/// Détecte le délimiteur le plus probable sur la première ligne du fichier.
pub fn detecter_delimiteur(premiere_ligne: &str) -> (r: u8)
    ensures
        r == spec_detecter_delimiteur(premiere_ligne@),
{
    let cs = vers_chars(premiere_ligne);
    let a = compte_occurrences(&cs, ',');
    let b = compte_occurrences(&cs, ';');
    let c = compte_occurrences(&cs, '\t');
    let d = compte_occurrences(&cs, '|');
    let e = compte_occurrences(&cs, ':');
    let f = compte_occurrences(&cs, ' ');
    if a >= b && a >= c && a >= d && a >= e && a >= f {
        44u8
    } else if b >= c && b >= d && b >= e && b >= f {
        59u8
    } else if c >= d && c >= e && c >= f {
        9u8
    } else if d >= e && d >= f {
        124u8
    } else if e >= f {
        58u8
    } else {
        32u8
    }
}

/// Message encadré d'un code de style du terminal et du code de
/// réinitialisation.
pub open spec fn texte_colore(message: Seq<char>, code: Seq<char>) -> Seq<char> {
    code + message + "\u{1b}[0m"@
}

fn encadrer(message: &str, code: &str, couleurs: bool) -> (r: String)
    ensures
        couleurs ==> r@ == texte_colore(message@, code@),
        !couleurs ==> r@ == message@,
{
    if couleurs {
        let mut s = String::from_str(code);
        s.append(message);
        s.append("\u{1b}[0m");
        s
    } else {
        String::from_str(message)
    }
}

/// Message d'erreur, en rouge gras quand la coloration est active.
pub fn erreur(message: &str, couleurs: bool) -> (r: String)
    ensures
        couleurs ==> r@ == texte_colore(message@, "\u{1b}[31;1m"@),
        !couleurs ==> r@ == message@,
{
    encadrer(message, "\u{1b}[31;1m", couleurs)
}

/// Message d'avertissement, en jaune quand la coloration est active.
pub fn avertissement(message: &str, couleurs: bool) -> (r: String)
    ensures
        couleurs ==> r@ == texte_colore(message@, "\u{1b}[33m"@),
        !couleurs ==> r@ == message@,
{
    encadrer(message, "\u{1b}[33m", couleurs)
}

/// Message de succès, en vert quand la coloration est active.
pub fn succes(message: &str, couleurs: bool) -> (r: String)
    ensures
        couleurs ==> r@ == texte_colore(message@, "\u{1b}[32m"@),
        !couleurs ==> r@ == message@,
{
    encadrer(message, "\u{1b}[32m", couleurs)
}

/// Chemin de fichier, en cyan quand la coloration est active.
pub fn chemin(p: &str, couleurs: bool) -> (r: String)
    ensures
        couleurs ==> r@ == texte_colore(p@, "\u{1b}[36m"@),
        !couleurs ==> r@ == p@,
{
    encadrer(p, "\u{1b}[36m", couleurs)
}

/// Indice de la dernière occurrence de `c` dans `s`, ou `-1` si `c` n'y
/// figure pas.
pub open spec fn dernier_indice_de(s: Seq<char>, c: char) -> int
    decreases s.len(),
{
    if s.len() == 0 {
        -1
    } else if s.last() == c {
        s.len() - 1
    } else {
        dernier_indice_de(s.drop_last(), c)
    }
}

proof fn lemme_dernier_indice(s: Seq<char>, c: char)
    ensures
        -1 <= dernier_indice_de(s, c) < s.len(),
        dernier_indice_de(s, c) >= 0 ==> s[dernier_indice_de(s, c)] == c,
        forall|k: int| dernier_indice_de(s, c) < k < s.len() ==> s[k] != c,
    decreases s.len(),
{
    if s.len() > 0 && s.last() != c {
        lemme_dernier_indice(s.drop_last(), c);
        assert forall|k: int| dernier_indice_de(s, c) < k < s.len() implies s[k] != c by {
            if k < s.len() - 1 {
                assert(s[k] == s.drop_last()[k]);
            }
        }
    }
}

/// Cherche la dernière occurrence de `c` dans `v`.
fn dernier_indice(v: &Vec<char>, c: char) -> (r: Option<usize>)
    ensures
        match r {
            Some(i) => i == dernier_indice_de(v@, c) && i < v@.len(),
            None => dernier_indice_de(v@, c) == -1,
        },
{
    let mut i: usize = v.len();
    while i > 0
        invariant
            i <= v@.len(),
            forall|k: int| i <= k < v@.len() ==> v@[k] != c,
        decreases i,
    {
        i -= 1;
        if v[i] == c {
            proof {
                lemme_dernier_indice(v@, c);
                let p = dernier_indice_de(v@, c);
                if p < i {
                    assert(v@[i as int] != c);
                    assert(false);
                }
                if p > i {
                    assert(v@[p] == c);
                    assert(false);
                }
            }
            return Some(i);
        }
    }
    proof {
        lemme_dernier_indice(v@, c);
        if dernier_indice_de(v@, c) >= 0 {
            assert(v@[dernier_indice_de(v@, c)] == c);
            assert(false);
        }
    }
    None
}

/// Chemin de sortie d'une entrée : même dossier, même radical, suffixe
/// `.parquet`. Le radical suit la règle de `Path::file_stem` de std sur le
/// dernier composant : tout le nom s'il n'a pas de `.` au-delà de son premier
/// caractère, sinon la partie avant le dernier `.`. Les séparateurs de fin ne
/// sont pas normalisés.
pub open spec fn spec_chemin_sortie(s: Seq<char>) -> Seq<char> {
    let sep = dernier_indice_de(s, '/');
    let nom = s.subrange(sep + 1, s.len() as int);
    let pt = dernier_indice_de(nom, '.');
    let fin_radical = if pt <= 0 {
        s.len() as int
    } else {
        sep + 1 + pt
    };
    s.subrange(0, fin_radical) + ".parquet"@
}

/// Dérive le chemin du fichier colonnaire écrit pour une entrée donnée.
pub fn construire_chemin_sortie_parquet(entree: &str) -> (r: String)
    ensures
        r@ == spec_chemin_sortie(entree@),
{
    let cs = vers_chars(entree);
    let n = cs.len();
    let ns: usize = match dernier_indice(&cs, '/') {
        Some(i) => i + 1,
        None => 0,
    };
    let ghost nom = cs@.subrange(ns as int, cs@.len() as int);
    let mut queue: Vec<char> = Vec::new();
    let mut i: usize = ns;
    while i < cs.len()
        invariant
            ns <= i <= cs@.len(),
            queue@ == cs@.subrange(ns as int, i as int),
        decreases cs@.len() - i,
    {
        queue.push(cs[i]);
        proof {
            assert(queue@ =~= cs@.subrange(ns as int, i + 1));
        }
        i += 1;
    }
    proof {
        assert(queue@ =~= nom);
    }
    let fin_radical: usize = match dernier_indice(&queue, '.') {
        Some(p) if p > 0 => ns + p,
        _ => cs.len(),
    };
    let mut r = String::from_str(entree.substring_char(0, fin_radical));
    r.append(".parquet");
    proof {
        assert(r@ =~= spec_chemin_sortie(entree@));
    }
    r
}

} // verus!
