//! Lexique numérique : entiers décimaux signés sur 128 bits, occurrences de
//! caractères et reconnaissance de la syntaxe des flottants de std.

use vstd::prelude::*;
use crate::texte::{minuscules, minuscules_tranche, egale_chaine};

verus! {

/// Amplitude de `i128::MIN`, soit 2 à la puissance 127.
pub const AMPLITUDE_I128_MIN: u128 = 170_141_183_460_469_231_731_687_303_715_884_105_728;

pub open spec fn est_chiffre(c: char) -> bool {
    48 <= (c as u32) && (c as u32) <= 57
}

pub open spec fn valeur_chiffre(c: char) -> int {
    (c as u32) - 48
}

pub open spec fn tous_chiffres(s: Seq<char>) -> bool {
    forall|i: int| 0 <= i < s.len() ==> est_chiffre(s[i])
}

/// Valeur d'une suite de chiffres décimaux, par le schéma de Horner.
pub open spec fn valeur_chiffres(s: Seq<char>) -> int
    decreases s.len(),
{
    if s.len() == 0 {
        0
    } else {
        valeur_chiffres(s.drop_last()) * 10 + valeur_chiffre(s.last())
    }
}

/// Syntaxe acceptée par `str::parse::<i128>` de std : un signe `+` ou `-`
/// facultatif puis au moins un chiffre décimal, sans rien d'autre.
pub open spec fn syntaxe_entier_signe(s: Seq<char>) -> bool {
    if s.len() == 0 {
        false
    } else if s[0] == '+' || s[0] == '-' {
        s.len() > 1 && tous_chiffres(s.drop_first())
    } else {
        tous_chiffres(s)
    }
}

/// Valeur entière d'une écriture décimale signée bien formée.
pub open spec fn valeur_entier_signe(s: Seq<char>) -> int {
    if s.len() > 0 && s[0] == '-' {
        -valeur_chiffres(s.drop_first())
    } else if s.len() > 0 && s[0] == '+' {
        valeur_chiffres(s.drop_first())
    } else {
        valeur_chiffres(s)
    }
}

/// Résultat de `str::parse::<i128>` de std : la valeur si l'écriture est bien
/// formée et tient dans le type, sinon rien.
pub open spec fn parse_i128_spec(s: Seq<char>) -> Option<i128> {
    if syntaxe_entier_signe(s) && i128::MIN <= valeur_entier_signe(s) <= i128::MAX {
        Some(valeur_entier_signe(s) as i128)
    } else {
        None
    }
}

proof fn lemme_valeur_chiffres_positive(s: Seq<char>)
    requires
        tous_chiffres(s),
    ensures
        valeur_chiffres(s) >= 0,
    decreases s.len(),
{
    if s.len() > 0 {
        lemme_valeur_chiffres_positive(s.drop_last());
    }
}

proof fn lemme_valeur_chiffres_croit(s: Seq<char>, i: int)
    requires
        tous_chiffres(s),
        0 <= i <= s.len(),
    ensures
        valeur_chiffres(s) >= valeur_chiffres(s.subrange(0, i)),
    decreases s.len() - i,
{
    if i == s.len() {
        assert(s.subrange(0, i) =~= s);
    } else {
        lemme_valeur_chiffres_croit(s, i + 1);
        let p = s.subrange(0, i + 1);
        assert(p.drop_last() =~= s.subrange(0, i));
        lemme_valeur_chiffres_positive(p.drop_last());
        assert(valeur_chiffres(p) == valeur_chiffres(s.subrange(0, i)) * 10 + valeur_chiffre(
            s[i],
        ));
        assert(valeur_chiffres(s.subrange(0, i)) * 10 >= valeur_chiffres(s.subrange(0, i)))
            by (nonlinear_arith)
            requires
                valeur_chiffres(s.subrange(0, i)) >= 0,
        ;
    }
}

/// Analyse `v[debut..fin]` comme `str::parse::<i128>` de std.
pub fn parse_entier128(v: &Vec<char>, debut: usize, fin: usize) -> (r: Option<i128>)
    requires
        debut <= fin <= v@.len(),
    ensures
        r == parse_i128_spec(v@.subrange(debut as int, fin as int)),
{
    let ghost s = v@.subrange(debut as int, fin as int);
    if debut == fin {
        return None;
    }
    let premier = v[debut];
    let negatif = premier == '-';
    let ds: usize = if premier == '-' || premier == '+' {
        debut + 1
    } else {
        debut
    };
    let ghost chiffres = v@.subrange(ds as int, fin as int);
    if ds == fin {
        return None;
    }
    proof {
        if ds != debut {
            assert(s.drop_first() =~= chiffres);
        } else {
            assert(s =~= chiffres);
        }
    }
    let mut m: u128 = 0;
    let mut i: usize = ds;
    while i < fin
        invariant
            debut <= ds <= i <= fin <= v@.len(),
            s == v@.subrange(debut as int, fin as int),
            chiffres == v@.subrange(ds as int, fin as int),
            s.len() > 0,
            negatif == (s[0] == '-'),
            ds == debut ==> s == chiffres && !(s[0] == '+' || s[0] == '-'),
            ds != debut ==> ds == debut + 1 && (s[0] == '+' || s[0] == '-') && s.drop_first()
                == chiffres,
            tous_chiffres(chiffres.subrange(0, i - ds)),
            m == valeur_chiffres(chiffres.subrange(0, i - ds)),
        decreases fin - i,
    {
        let c = v[i];
        if !(48 <= (c as u32) && (c as u32) <= 57) {
            proof {
                assert(!est_chiffre(chiffres[i - ds]));
                assert(!tous_chiffres(chiffres));
                if ds != debut {
                    assert(s.drop_first() =~= chiffres);
                } else {
                    assert(s =~= chiffres);
                }
            }
            return None;
        }
        let d: u128 = ((c as u32) - 48) as u128;
        if m > (u128::MAX - d) / 10 {
            proof {
                let p = chiffres.subrange(0, i - ds + 1);
                assert(p.drop_last() =~= chiffres.subrange(0, i - ds));
                assert(valeur_chiffres(p) == m * 10 + d);
                assert(m * 10 + d > u128::MAX) by (nonlinear_arith)
                    requires
                        m > (u128::MAX - d) / 10,
                        d <= 9,
                ;
                if ds != debut {
                    assert(s.drop_first() =~= chiffres);
                } else {
                    assert(s =~= chiffres);
                }
                if tous_chiffres(chiffres) {
                    lemme_valeur_chiffres_croit(chiffres, i - ds + 1);
                    assert(valeur_chiffres(chiffres) > u128::MAX);
                    assert(u128::MAX >= AMPLITUDE_I128_MIN);
                    assert(valeur_entier_signe(s) == if negatif {
                        -valeur_chiffres(chiffres)
                    } else {
                        valeur_chiffres(chiffres)
                    });
                } else {
                    assert(!syntaxe_entier_signe(s));
                }
            }
            return None;
        }
        proof {
            let p = chiffres.subrange(0, i - ds + 1);
            assert(p.drop_last() =~= chiffres.subrange(0, i - ds));
            assert(m * 10 + d <= u128::MAX) by (nonlinear_arith)
                requires
                    m <= (u128::MAX - d) / 10,
                    d <= 9,
            ;
        }
        m = m * 10 + d;
        i += 1;
    }
    proof {
        assert(chiffres.subrange(0, fin - ds) =~= chiffres);
        if ds != debut {
            assert(s.drop_first() =~= chiffres);
        } else {
            assert(s =~= chiffres);
        }
        assert(syntaxe_entier_signe(s));
    }
    if negatif {
        if m < AMPLITUDE_I128_MIN {
            proof {
                assert(valeur_entier_signe(s) == -(m as int));
            }
            Some(-(m as i128))
        } else if m == AMPLITUDE_I128_MIN {
            Some(i128::MIN)
        } else {
            None
        }
    } else {
        if m <= (i128::MAX as u128) {
            Some(m as i128)
        } else {
            None
        }
    }
}

/// État de l'automate qui reconnaît l'écriture décimale d'un flottant,
/// d'après la grammaire documentée de `f64::from_str` de std :
/// `Signe? ( Chiffre+ | Chiffre+ '.' Chiffre* | Chiffre* '.' Chiffre+ )
/// (('e'|'E') Signe? Chiffre+)?`.
#[derive(Clone, Copy, PartialEq, Eq, Structural)]
pub enum EtatFlottant {
    Depart,
    ApresSigne,
    PartieEntiere,
    PointInitial,
    PointApresEntier,
    PartieFraction,
    DebutExposant,
    SigneExposant,
    ChiffresExposant,
    Rejet,
}

pub open spec fn transition_flottant(e: EtatFlottant, c: char) -> EtatFlottant {
    let chiffre = est_chiffre(c);
    match e {
        EtatFlottant::Depart => if c == '+' || c == '-' {
            EtatFlottant::ApresSigne
        } else if chiffre {
            EtatFlottant::PartieEntiere
        } else if c == '.' {
            EtatFlottant::PointInitial
        } else {
            EtatFlottant::Rejet
        },
        EtatFlottant::ApresSigne => if chiffre {
            EtatFlottant::PartieEntiere
        } else if c == '.' {
            EtatFlottant::PointInitial
        } else {
            EtatFlottant::Rejet
        },
        EtatFlottant::PartieEntiere => if chiffre {
            EtatFlottant::PartieEntiere
        } else if c == '.' {
            EtatFlottant::PointApresEntier
        } else if c == 'e' || c == 'E' {
            EtatFlottant::DebutExposant
        } else {
            EtatFlottant::Rejet
        },
        EtatFlottant::PointInitial => if chiffre {
            EtatFlottant::PartieFraction
        } else {
            EtatFlottant::Rejet
        },
        EtatFlottant::PointApresEntier => if chiffre {
            EtatFlottant::PartieFraction
        } else if c == 'e' || c == 'E' {
            EtatFlottant::DebutExposant
        } else {
            EtatFlottant::Rejet
        },
        EtatFlottant::PartieFraction => if chiffre {
            EtatFlottant::PartieFraction
        } else if c == 'e' || c == 'E' {
            EtatFlottant::DebutExposant
        } else {
            EtatFlottant::Rejet
        },
        EtatFlottant::DebutExposant => if c == '+' || c == '-' {
            EtatFlottant::SigneExposant
        } else if chiffre {
            EtatFlottant::ChiffresExposant
        } else {
            EtatFlottant::Rejet
        },
        EtatFlottant::SigneExposant => if chiffre {
            EtatFlottant::ChiffresExposant
        } else {
            EtatFlottant::Rejet
        },
        EtatFlottant::ChiffresExposant => if chiffre {
            EtatFlottant::ChiffresExposant
        } else {
            EtatFlottant::Rejet
        },
        EtatFlottant::Rejet => EtatFlottant::Rejet,
    }
}

pub open spec fn etat_flottant_final(s: Seq<char>) -> EtatFlottant
    decreases s.len(),
{
    if s.len() == 0 {
        EtatFlottant::Depart
    } else {
        transition_flottant(etat_flottant_final(s.drop_last()), s.last())
    }
}

pub open spec fn etat_flottant_accepte(e: EtatFlottant) -> bool {
    e == EtatFlottant::PartieEntiere || e == EtatFlottant::PointApresEntier || e
        == EtatFlottant::PartieFraction || e == EtatFlottant::ChiffresExposant
}

/// Mots spéciaux que `f64::from_str` de std accepte, signe facultatif puis,
/// sans distinction de casse, `inf`, `infinity` ou `nan`.
pub open spec fn est_mot_flottant_special(s: Seq<char>) -> bool {
    let t = if s.len() > 0 && (s[0] == '+' || s[0] == '-') {
        s.drop_first()
    } else {
        s
    };
    let m = minuscules(t);
    m == "inf"@ || m == "infinity"@ || m == "nan"@
}

/// Écritures qu'accepte `f64::from_str` de std : nombre décimal d'après la
/// grammaire documentée, ou mot spécial.
pub open spec fn syntaxe_flottante(s: Seq<char>) -> bool {
    etat_flottant_accepte(etat_flottant_final(s)) || est_mot_flottant_special(s)
}

fn transition_flottant_exec(e: EtatFlottant, c: char) -> (r: EtatFlottant)
    ensures
        r == transition_flottant(e, c),
{
    let chiffre = 48 <= (c as u32) && (c as u32) <= 57;
    match e {
        EtatFlottant::Depart => if c == '+' || c == '-' {
            EtatFlottant::ApresSigne
        } else if chiffre {
            EtatFlottant::PartieEntiere
        } else if c == '.' {
            EtatFlottant::PointInitial
        } else {
            EtatFlottant::Rejet
        },
        EtatFlottant::ApresSigne => if chiffre {
            EtatFlottant::PartieEntiere
        } else if c == '.' {
            EtatFlottant::PointInitial
        } else {
            EtatFlottant::Rejet
        },
        EtatFlottant::PartieEntiere => if chiffre {
            EtatFlottant::PartieEntiere
        } else if c == '.' {
            EtatFlottant::PointApresEntier
        } else if c == 'e' || c == 'E' {
            EtatFlottant::DebutExposant
        } else {
            EtatFlottant::Rejet
        },
        EtatFlottant::PointInitial => if chiffre {
            EtatFlottant::PartieFraction
        } else {
            EtatFlottant::Rejet
        },
        EtatFlottant::PointApresEntier => if chiffre {
            EtatFlottant::PartieFraction
        } else if c == 'e' || c == 'E' {
            EtatFlottant::DebutExposant
        } else {
            EtatFlottant::Rejet
        },
        EtatFlottant::PartieFraction => if chiffre {
            EtatFlottant::PartieFraction
        } else if c == 'e' || c == 'E' {
            EtatFlottant::DebutExposant
        } else {
            EtatFlottant::Rejet
        },
        EtatFlottant::DebutExposant => if c == '+' || c == '-' {
            EtatFlottant::SigneExposant
        } else if chiffre {
            EtatFlottant::ChiffresExposant
        } else {
            EtatFlottant::Rejet
        },
        EtatFlottant::SigneExposant => if chiffre {
            EtatFlottant::ChiffresExposant
        } else {
            EtatFlottant::Rejet
        },
        EtatFlottant::ChiffresExposant => if chiffre {
            EtatFlottant::ChiffresExposant
        } else {
            EtatFlottant::Rejet
        },
        EtatFlottant::Rejet => EtatFlottant::Rejet,
    }
}

/// Décide si `v[debut..fin]` est une écriture de flottant acceptée par
/// `f64::from_str` de std.
pub fn est_flottant_syntaxe(v: &Vec<char>, debut: usize, fin: usize) -> (r: bool)
    requires
        debut <= fin <= v@.len(),
    ensures
        r == syntaxe_flottante(v@.subrange(debut as int, fin as int)),
{
    let ghost s = v@.subrange(debut as int, fin as int);
    let mut e = EtatFlottant::Depart;
    let mut i: usize = debut;
    while i < fin
        invariant
            debut <= i <= fin <= v@.len(),
            s == v@.subrange(debut as int, fin as int),
            e == etat_flottant_final(s.subrange(0, i - debut)),
        decreases fin - i,
    {
        proof {
            let p = s.subrange(0, i - debut + 1);
            assert(p.drop_last() =~= s.subrange(0, i - debut));
        }
        e = transition_flottant_exec(e, v[i]);
        i += 1;
    }
    proof {
        assert(s.subrange(0, fin - debut) =~= s);
    }
    let accepte = match e {
        EtatFlottant::PartieEntiere => true,
        EtatFlottant::PointApresEntier => true,
        EtatFlottant::PartieFraction => true,
        EtatFlottant::ChiffresExposant => true,
        _ => false,
    };
    if accepte {
        return true;
    }
    let ds: usize = if debut < fin && (v[debut] == '+' || v[debut] == '-') {
        debut + 1
    } else {
        debut
    };
    proof {
        if ds != debut {
            assert(s.drop_first() =~= v@.subrange(ds as int, fin as int));
        } else {
            assert(s =~= v@.subrange(ds as int, fin as int));
        }
    }
    let m = minuscules_tranche(v, ds, fin);
    egale_chaine(&m, "inf") || egale_chaine(&m, "infinity") || egale_chaine(&m, "nan")
}

/// Nombre d'occurrences d'un caractère dans une suite.
pub open spec fn nb_occurrences(s: Seq<char>, c: char) -> int
    decreases s.len(),
{
    if s.len() == 0 {
        0
    } else {
        nb_occurrences(s.drop_last(), c) + if s.last() == c {
            1int
        } else {
            0int
        }
    }
}

/// Compte les occurrences de `c` dans `v`.
pub fn compte_occurrences(v: &Vec<char>, c: char) -> (r: usize)
    ensures
        r == nb_occurrences(v@, c),
{
    let mut r: usize = 0;
    let mut i: usize = 0;
    while i < v.len()
        invariant
            i <= v@.len(),
            r <= i,
            r == nb_occurrences(v@.subrange(0, i as int), c),
        decreases v@.len() - i,
    {
        proof {
            assert(v@.subrange(0, i + 1).drop_last() =~= v@.subrange(0, i as int));
        }
        if v[i] == c {
            r += 1;
        }
        i += 1;
    }
    proof {
        assert(v@.subrange(0, v@.len() as int) =~= v@);
    }
    r
}

/// Indice de la première occurrence de `c` dans `s`, ou la longueur de `s`
/// si `c` n'y figure pas.
pub open spec fn premier_indice_de(s: Seq<char>, c: char) -> int
    decreases s.len(),
{
    if s.len() == 0 {
        0
    } else if s[0] == c {
        0
    } else {
        1 + premier_indice_de(s.drop_first(), c)
    }
}

proof fn lemme_premier_indice(s: Seq<char>, c: char)
    ensures
        0 <= premier_indice_de(s, c) <= s.len(),
        premier_indice_de(s, c) < s.len() ==> s[premier_indice_de(s, c)] == c,
        forall|k: int| 0 <= k < premier_indice_de(s, c) ==> s[k] != c,
    decreases s.len(),
{
    if s.len() > 0 && s[0] != c {
        lemme_premier_indice(s.drop_first(), c);
        assert forall|k: int| 0 <= k < premier_indice_de(s, c) implies s[k] != c by {
            if k > 0 {
                assert(s[k] == s.drop_first()[k - 1]);
            }
        }
    }
}

/// Cherche la première occurrence de `c` dans `v[debut..fin]` ; rend son
/// indice relatif au début de la tranche, ou la longueur de la tranche.
pub fn premier_indice(v: &Vec<char>, debut: usize, fin: usize, c: char) -> (r: usize)
    requires
        debut <= fin <= v@.len(),
    ensures
        r == premier_indice_de(v@.subrange(debut as int, fin as int), c),
{
    let ghost s = v@.subrange(debut as int, fin as int);
    let mut i: usize = debut;
    while i < fin
        invariant
            debut <= i <= fin <= v@.len(),
            s == v@.subrange(debut as int, fin as int),
            forall|k: int| 0 <= k < i - debut ==> s[k] != c,
        decreases fin - i,
    {
        if v[i] == c {
            proof {
                lemme_premier_indice(s, c);
                assert(s[i - debut] == c);
                let p = premier_indice_de(s, c);
                if p < i - debut {
                    assert(s[p] == c);
                    assert(false);
                }
                if p > i - debut {
                    assert(s[i - debut] != c);
                    assert(false);
                }
            }
            return i - debut;
        }
        i += 1;
    }
    proof {
        lemme_premier_indice(s, c);
        if premier_indice_de(s, c) < s.len() {
            assert(s[premier_indice_de(s, c)] == c);
            assert(false);
        }
    }
    fin - debut
}

} // verus!
