//! Inférence de schéma : statistiques par colonne accumulées sur un
//! échantillon de lignes, puis élection d'un type du treillis par vote
//! majoritaire à seuils.

use vstd::prelude::*;
use vstd::utf8::encode_utf8;
use crate::texte::{rogner, vers_chars, bornes_rognees};
use crate::nombres::{
    parse_i128_spec, parse_entier128, premier_indice_de, premier_indice, syntaxe_flottante,
    est_flottant_syntaxe,
};
use crate::utils::{est_jeton_null, est_null_texte, parse_bool_spec, parse_bool};
use crate::dates::{
    UniteTemps, spec_est_date, est_date_texte, spec_unite_timestamp, detecter_unite_timestamp,
};
use crate::enregistrement::{vues_chaines, champs_csv, csv_analyser_ligne};

verus! {

/// Nombre maximal de lignes observées quand l'échantillonnage est borné.
pub const MAX_LIGNES_INFERENCE: u64 = 1000;

/// Treillis fermé des types de colonne que le système élit ou accepte.
#[derive(Clone, Copy, PartialEq, Eq, Structural, Debug)]
pub enum TypeColonne {
    Booleen,
    Entier64,
    NonSigne64,
    Flottant64,
    Date32,
    Horodatage(UniteTemps),
    Utf8,
    GrandUtf8,
    Binaire,
    GrandBinaire,
}

/// Champ d'un schéma : un nom, un type du treillis, la nullabilité.
pub struct ChampSchema {
    pub nom: String,
    pub type_colonne: TypeColonne,
    pub nullable: bool,
}

/// Suite ordonnée de champs, alignée sur l'en-tête du fichier.
pub struct SchemaColonnes {
    pub champs: Vec<ChampSchema>,
}

/// Réécrit chaque champ du schéma comme nullable, à la frontière du pipeline.
pub fn schema_rendre_tout_nullable(schema: SchemaColonnes) -> (r: SchemaColonnes)
    ensures
        r.champs@.len() == schema.champs@.len(),
        forall|j: int|
            0 <= j < r.champs@.len() ==> r.champs@[j].nom@ == schema.champs@[j].nom@
                && r.champs@[j].type_colonne == schema.champs@[j].type_colonne
                && r.champs@[j].nullable,
{
    let mut champs: Vec<ChampSchema> = Vec::new();
    let mut j: usize = 0;
    while j < schema.champs.len()
        invariant
            j <= schema.champs@.len(),
            champs@.len() == j,
            forall|k: int|
                0 <= k < j ==> champs@[k].nom@ == schema.champs@[k].nom@
                    && champs@[k].type_colonne == schema.champs@[k].type_colonne
                    && champs@[k].nullable,
        decreases schema.champs@.len() - j,
    {
        champs.push(
            ChampSchema {
                nom: schema.champs[j].nom.clone(),
                type_colonne: schema.champs[j].type_colonne,
                nullable: true,
            },
        );
        j += 1;
    }
    SchemaColonnes { champs }
}

/// Vrai si `c` figure dans `s`.
pub open spec fn contient(s: Seq<char>, c: char) -> bool {
    premier_indice_de(s, c) < s.len()
}

/// Statistiques accumulées sur une colonne pendant l'inférence.
#[derive(Clone, Copy, PartialEq, Eq, Structural, Debug)]
pub struct StatistiquesColonne {
    pub valeurs_non_nulles: u64,
    pub nb_booleen_ok: u64,
    pub nb_date_ok: u64,
    pub nb_ts_s_ok: u64,
    pub nb_ts_ms_ok: u64,
    pub nb_ts_us_ok: u64,
    pub nb_ts_ns_ok: u64,
    pub nb_f64_ok: u64,
    pub nb_i128_ok: u64,
    pub nb_negatifs: u64,
    pub syntaxe_flottante_vue: bool,
    pub min_i128: i128,
    pub max_i128: i128,
    pub longueur_max: usize,
}

pub open spec fn spec_stats_vides() -> StatistiquesColonne {
    StatistiquesColonne {
        valeurs_non_nulles: 0,
        nb_booleen_ok: 0,
        nb_date_ok: 0,
        nb_ts_s_ok: 0,
        nb_ts_ms_ok: 0,
        nb_ts_us_ok: 0,
        nb_ts_ns_ok: 0,
        nb_f64_ok: 0,
        nb_i128_ok: 0,
        nb_negatifs: 0,
        syntaxe_flottante_vue: false,
        min_i128: i128::MAX,
        max_i128: i128::MIN,
        longueur_max: 0,
    }
}

/// Chaque compteur reste borné par le nombre de valeurs non nulles ; les
/// quatre compteurs d'horodatage se partagent ce plafond, et les négatifs
/// restent bornés par les entiers lus.
pub open spec fn stats_bien_formees(st: StatistiquesColonne) -> bool {
    st.nb_booleen_ok <= st.valeurs_non_nulles && st.nb_date_ok <= st.valeurs_non_nulles
        && st.nb_ts_s_ok + st.nb_ts_ms_ok + st.nb_ts_us_ok + st.nb_ts_ns_ok
        <= st.valeurs_non_nulles && st.nb_f64_ok <= st.valeurs_non_nulles && st.nb_i128_ok
        <= st.valeurs_non_nulles && st.nb_negatifs <= st.nb_i128_ok
}

/// Effet d'une valeur observée sur les statistiques : un jeton nul ne change
/// rien ; sinon la valeur rognée est soumise à chaque lecture candidate et
/// chaque compteur avance d'au plus un. Les longueurs comptent les octets de
/// l'écriture UTF-8.
pub open spec fn spec_observer(st: StatistiquesColonne, v: Seq<char>) -> StatistiquesColonne {
    if est_jeton_null(v) {
        st
    } else {
        let t = rogner(v);
        let octets = encode_utf8(t).len() as usize;
        let garde_ts = octets >= 8 && (contient(t, '-') || contient(t, ':') || contient(t, 'T'));
        let unite = if garde_ts {
            spec_unite_timestamp(t)
        } else {
            None
        };
        let fl = syntaxe_flottante(t);
        let ent = parse_i128_spec(t);
        StatistiquesColonne {
            valeurs_non_nulles: (st.valeurs_non_nulles + 1) as u64,
            nb_booleen_ok: if parse_bool_spec(t) is Some {
                (st.nb_booleen_ok + 1) as u64
            } else {
                st.nb_booleen_ok
            },
            nb_date_ok: if spec_est_date(t) {
                (st.nb_date_ok + 1) as u64
            } else {
                st.nb_date_ok
            },
            nb_ts_s_ok: if unite == Some(UniteTemps::Seconde) {
                (st.nb_ts_s_ok + 1) as u64
            } else {
                st.nb_ts_s_ok
            },
            nb_ts_ms_ok: if unite == Some(UniteTemps::Milliseconde) {
                (st.nb_ts_ms_ok + 1) as u64
            } else {
                st.nb_ts_ms_ok
            },
            nb_ts_us_ok: if unite == Some(UniteTemps::Microseconde) {
                (st.nb_ts_us_ok + 1) as u64
            } else {
                st.nb_ts_us_ok
            },
            nb_ts_ns_ok: if unite == Some(UniteTemps::Nanoseconde) {
                (st.nb_ts_ns_ok + 1) as u64
            } else {
                st.nb_ts_ns_ok
            },
            nb_f64_ok: if fl {
                (st.nb_f64_ok + 1) as u64
            } else {
                st.nb_f64_ok
            },
            nb_i128_ok: if ent is Some {
                (st.nb_i128_ok + 1) as u64
            } else {
                st.nb_i128_ok
            },
            nb_negatifs: match ent {
                Some(x) => if x < 0 {
                    (st.nb_negatifs + 1) as u64
                } else {
                    st.nb_negatifs
                },
                None => st.nb_negatifs,
            },
            syntaxe_flottante_vue: st.syntaxe_flottante_vue || (fl && (contient(t, '.')
                || contient(t, 'e') || contient(t, 'E'))),
            min_i128: match ent {
                Some(x) => if x < st.min_i128 {
                    x
                } else {
                    st.min_i128
                },
                None => st.min_i128,
            },
            max_i128: match ent {
                Some(x) => if x > st.max_i128 {
                    x
                } else {
                    st.max_i128
                },
                None => st.max_i128,
            },
            longueur_max: if octets > st.longueur_max {
                octets
            } else {
                st.longueur_max
            },
        }
    }
}

/// Le rapport `compteur / total` atteint `seuil_milliemes` millièmes ; le
/// total est supposé strictement positif.
pub open spec fn ratio_au_moins_milliemes(compteur: int, total: int, seuil_milliemes: int) -> bool {
    1000 * compteur >= seuil_milliemes * total
}

fn ratio_au_moins(compteur: u64, total: u64, seuil_milliemes: u64) -> (r: bool)
    requires
        seuil_milliemes <= 1000,
    ensures
        r == ratio_au_moins_milliemes(compteur as int, total as int, seuil_milliemes as int),
{
    proof {
        assert((seuil_milliemes as u128) * (total as u128) <= 1000u128
            * 18446744073709551615u128) by (nonlinear_arith)
            requires
                seuil_milliemes <= 1000u64,
                total <= 18446744073709551615u64,
        ;
    }
    (compteur as u128) * 1000 >= (seuil_milliemes as u128) * (total as u128)
}

/// Unité élue pour une colonne d'horodatages : le compteur le plus fourni,
/// la milliseconde d'abord en cas d'égalité, les candidates examinées dans
/// l'ordre seconde, milliseconde, microseconde, nanoseconde.
pub open spec fn spec_choisir_unite(st: StatistiquesColonne) -> UniteTemps {
    let (u0, c0) = (UniteTemps::Milliseconde, st.nb_ts_ms_ok);
    let (u1, c1) = if st.nb_ts_s_ok > c0 {
        (UniteTemps::Seconde, st.nb_ts_s_ok)
    } else {
        (u0, c0)
    };
    let (u2, c2) = if st.nb_ts_ms_ok > c1 {
        (UniteTemps::Milliseconde, st.nb_ts_ms_ok)
    } else {
        (u1, c1)
    };
    let (u3, c3) = if st.nb_ts_us_ok > c2 {
        (UniteTemps::Microseconde, st.nb_ts_us_ok)
    } else {
        (u2, c2)
    };
    let (u4, _) = if st.nb_ts_ns_ok > c3 {
        (UniteTemps::Nanoseconde, st.nb_ts_ns_ok)
    } else {
        (u3, c3)
    };
    u4
}

/// Type élu pour une colonne, dans l'ordre de décision du vote majoritaire :
/// horodatage, date, booléen, puis la famille numérique, sinon `GrandUtf8`.
pub open spec fn spec_choisir_type(st: StatistiquesColonne) -> TypeColonne {
    if st.valeurs_non_nulles == 0 {
        TypeColonne::GrandUtf8
    } else {
        let nn = st.valeurs_non_nulles as int;
        let ts_total = st.nb_ts_s_ok + st.nb_ts_ms_ok + st.nb_ts_us_ok + st.nb_ts_ns_ok;
        if ratio_au_moins_milliemes(ts_total as int, nn, 995) {
            TypeColonne::Horodatage(spec_choisir_unite(st))
        } else if ratio_au_moins_milliemes(st.nb_date_ok as int, nn, 995) {
            TypeColonne::Date32
        } else if ratio_au_moins_milliemes(st.nb_booleen_ok as int, nn, 995) {
            TypeColonne::Booleen
        } else if ratio_au_moins_milliemes(st.nb_f64_ok as int, nn, 980) {
            if st.syntaxe_flottante_vue {
                TypeColonne::Flottant64
            } else if ratio_au_moins_milliemes(st.nb_i128_ok as int, nn, 980) {
                let denominateur = if st.nb_i128_ok as int >= 1 {
                    st.nb_i128_ok as int
                } else {
                    1
                };
                if (st.min_i128 as int) < (i64::MIN as int) || (st.max_i128 as int) > (
                u64::MAX as int) {
                    TypeColonne::Flottant64
                } else if (st.min_i128 as int) >= 0 && (st.max_i128 as int) <= (u64::MAX as int)
                    && ((st.max_i128 as int) > (i64::MAX as int) || !ratio_au_moins_milliemes(
                    st.nb_negatifs as int,
                    denominateur,
                    5,
                )) {
                    TypeColonne::NonSigne64
                } else if (st.min_i128 as int) >= (i64::MIN as int) && (st.max_i128 as int) <= (
                i64::MAX as int) {
                    TypeColonne::Entier64
                } else {
                    TypeColonne::Flottant64
                }
            } else {
                TypeColonne::Flottant64
            }
        } else {
            TypeColonne::GrandUtf8
        }
    }
}

impl StatistiquesColonne {
    /// Statistiques vides d'une colonne qui n'a encore rien observé.
    pub fn nouvelle() -> (r: Self)
        ensures
            r == spec_stats_vides(),
            stats_bien_formees(r),
    {
        StatistiquesColonne {
            valeurs_non_nulles: 0,
            nb_booleen_ok: 0,
            nb_date_ok: 0,
            nb_ts_s_ok: 0,
            nb_ts_ms_ok: 0,
            nb_ts_us_ok: 0,
            nb_ts_ns_ok: 0,
            nb_f64_ok: 0,
            nb_i128_ok: 0,
            nb_negatifs: 0,
            syntaxe_flottante_vue: false,
            min_i128: i128::MAX,
            max_i128: i128::MIN,
            longueur_max: 0,
        }
    }

    /// Soumet une valeur aux statistiques de la colonne.
    #[verifier::rlimit(100)]
    pub fn observer_valeur(&mut self, valeur: &str)
        requires
            stats_bien_formees(*old(self)),
            old(self).valeurs_non_nulles < u64::MAX,
        ensures
            *final(self) == spec_observer(*old(self), valeur@),
            stats_bien_formees(*final(self)),
    {
        if est_null_texte(valeur) {
            return ;
        }
        let cs = vers_chars(valeur);
        let (d, f) = bornes_rognees(&cs);
        let t = valeur.substring_char(d, f);
        self.valeurs_non_nulles = self.valeurs_non_nulles + 1;
        let lt = f - d;
        let octets = t.len();
        if octets > self.longueur_max {
            self.longueur_max = octets;
        }
        if parse_bool(t).is_some() {
            self.nb_booleen_ok = self.nb_booleen_ok + 1;
        }
        if est_date_texte(t) {
            self.nb_date_ok = self.nb_date_ok + 1;
        }
        let tiret = premier_indice(&cs, d, f, '-');
        let deux_points = premier_indice(&cs, d, f, ':');
        let lettre_t = premier_indice(&cs, d, f, 'T');
        if octets >= 8 && (tiret < lt || deux_points < lt || lettre_t < lt) {
            match detecter_unite_timestamp(t) {
                Some(UniteTemps::Seconde) => {
                    self.nb_ts_s_ok = self.nb_ts_s_ok + 1;
                },
                Some(UniteTemps::Milliseconde) => {
                    self.nb_ts_ms_ok = self.nb_ts_ms_ok + 1;
                },
                Some(UniteTemps::Microseconde) => {
                    self.nb_ts_us_ok = self.nb_ts_us_ok + 1;
                },
                Some(UniteTemps::Nanoseconde) => {
                    self.nb_ts_ns_ok = self.nb_ts_ns_ok + 1;
                },
                None => {},
            }
        }
        if est_flottant_syntaxe(&cs, d, f) {
            self.nb_f64_ok = self.nb_f64_ok + 1;
            let point = premier_indice(&cs, d, f, '.');
            let e_min = premier_indice(&cs, d, f, 'e');
            let e_maj = premier_indice(&cs, d, f, 'E');
            if point < lt || e_min < lt || e_maj < lt {
                self.syntaxe_flottante_vue = true;
            }
        }
        match parse_entier128(&cs, d, f) {
            Some(x) => {
                self.nb_i128_ok = self.nb_i128_ok + 1;
                if x < 0 {
                    self.nb_negatifs = self.nb_negatifs + 1;
                }
                if x < self.min_i128 {
                    self.min_i128 = x;
                }
                if x > self.max_i128 {
                    self.max_i128 = x;
                }
            },
            None => {},
        }
    }

    /// Unité de temps élue d'après les quatre compteurs d'horodatage.
    pub fn choisir_unite_timestamp(&self) -> (r: UniteTemps)
        ensures
            r == spec_choisir_unite(*self),
    {
        let mut meilleur_u = UniteTemps::Milliseconde;
        let mut meilleur_c = self.nb_ts_ms_ok;
        if self.nb_ts_s_ok > meilleur_c {
            meilleur_u = UniteTemps::Seconde;
            meilleur_c = self.nb_ts_s_ok;
        }
        if self.nb_ts_ms_ok > meilleur_c {
            meilleur_u = UniteTemps::Milliseconde;
            meilleur_c = self.nb_ts_ms_ok;
        }
        if self.nb_ts_us_ok > meilleur_c {
            meilleur_u = UniteTemps::Microseconde;
            meilleur_c = self.nb_ts_us_ok;
        }
        if self.nb_ts_ns_ok > meilleur_c {
            meilleur_u = UniteTemps::Nanoseconde;
        }
        meilleur_u
    }

    /// Type élu pour la colonne d'après ses statistiques.
    pub fn choisir_type_large(&self) -> (r: TypeColonne)
        requires
            stats_bien_formees(*self),
        ensures
            r == spec_choisir_type(*self),
    {
        if self.valeurs_non_nulles == 0 {
            return TypeColonne::GrandUtf8;
        }
        let nn = self.valeurs_non_nulles;
        let ts_total = self.nb_ts_s_ok + self.nb_ts_ms_ok + self.nb_ts_us_ok + self.nb_ts_ns_ok;
        if ratio_au_moins(ts_total, nn, 995) {
            return TypeColonne::Horodatage(self.choisir_unite_timestamp());
        }
        if ratio_au_moins(self.nb_date_ok, nn, 995) {
            return TypeColonne::Date32;
        }
        if ratio_au_moins(self.nb_booleen_ok, nn, 995) {
            return TypeColonne::Booleen;
        }
        if ratio_au_moins(self.nb_f64_ok, nn, 980) {
            if self.syntaxe_flottante_vue {
                return TypeColonne::Flottant64;
            }
            if ratio_au_moins(self.nb_i128_ok, nn, 980) {
                let denominateur = if self.nb_i128_ok >= 1 {
                    self.nb_i128_ok
                } else {
                    1
                };
                if self.min_i128 < (i64::MIN as i128) || self.max_i128 > (u64::MAX as i128) {
                    return TypeColonne::Flottant64;
                }
                if self.min_i128 >= 0 && self.max_i128 <= (u64::MAX as i128) && (self.max_i128 > (
                i64::MAX as i128) || !ratio_au_moins(self.nb_negatifs, denominateur, 5)) {
                    return TypeColonne::NonSigne64;
                }
                if self.min_i128 >= (i64::MIN as i128) && self.max_i128 <= (i64::MAX as i128) {
                    return TypeColonne::Entier64;
                }
                return TypeColonne::Flottant64;
            }
            return TypeColonne::Flottant64;
        }
        TypeColonne::GrandUtf8
    }
}

/// Champ `j` d'un enregistrement, ou la chaîne vide au-delà de sa longueur.
pub open spec fn champ_ou_vide(rec: Seq<Seq<char>>, j: int) -> Seq<char> {
    if 0 <= j < rec.len() {
        rec[j]
    } else {
        Seq::empty()
    }
}

/// Soumet un enregistrement aux statistiques de toutes les colonnes.
pub open spec fn spec_observer_enregistrement(
    sts: Seq<StatistiquesColonne>,
    rec: Seq<Seq<char>>,
) -> Seq<StatistiquesColonne> {
    Seq::new(sts.len(), |j: int| spec_observer(sts[j], champ_ou_vide(rec, j)))
}

/// Déroule l'observation sur les lignes de données restantes : une ligne que
/// csv ne découpe pas est sautée sans compter ; l'échantillonnage borné
/// s'arrête dès que `MAX_LIGNES_INFERENCE` lignes ont été observées.
pub open spec fn spec_inferer_depuis(
    sts: Seq<StatistiquesColonne>,
    lues: int,
    lignes: Seq<Seq<char>>,
    delim: u8,
    tout: bool,
) -> Seq<StatistiquesColonne>
    decreases lignes.len(),
{
    if lignes.len() == 0 || (!tout && lues >= MAX_LIGNES_INFERENCE) {
        sts
    } else {
        match champs_csv(lignes[0], delim) {
            Some(Some(rec)) => spec_inferer_depuis(
                spec_observer_enregistrement(sts, rec),
                lues + 1,
                lignes.drop_first(),
                delim,
                tout,
            ),
            _ => spec_inferer_depuis(sts, lues, lignes.drop_first(), delim, tout),
        }
    }
}

/// Modèle d'un schéma : la suite de ses couples nom et type.
pub open spec fn modele_schema(sch: SchemaColonnes) -> Seq<(Seq<char>, TypeColonne)> {
    sch.champs@.map_values(|c: ChampSchema| (c.nom@, c.type_colonne))
}

/// Statistiques vides d'un schéma de `n` colonnes.
pub open spec fn stats_initiales(n: nat) -> Seq<StatistiquesColonne> {
    Seq::new(n, |j: int| spec_stats_vides())
}

/// Couples nom et type élus pour des en-têtes et des statistiques finales.
pub open spec fn modele_depuis(
    entetes: Seq<Seq<char>>,
    finales: Seq<StatistiquesColonne>,
) -> Seq<(Seq<char>, TypeColonne)> {
    Seq::new(entetes.len(), |j: int| (entetes[j], spec_choisir_type(finales[j])))
}

/// Schéma inféré pour un fichier donné par ses lignes : la première ligne
/// porte l'en-tête, les suivantes les données ; le résultat est une fonction
/// des seuls caractères des lignes, du délimiteur et du mode
/// d'échantillonnage. L'inférence échoue si l'en-tête est illisible.
pub open spec fn spec_inferer_schema(lignes: Seq<Seq<char>>, delim: u8, tout: bool) -> Option<
    Seq<(Seq<char>, TypeColonne)>,
> {
    if lignes.len() == 0 {
        Some(Seq::empty())
    } else {
        match champs_csv(lignes[0], delim) {
            None => None,
            Some(ob) => {
                let entetes = match ob {
                    Some(e) => e,
                    None => Seq::empty(),
                };
                let finales = spec_inferer_depuis(
                    stats_initiales(entetes.len()),
                    0,
                    lignes.subrange(1, lignes.len() as int),
                    delim,
                    tout,
                );
                Some(modele_depuis(entetes, finales))
            },
        }
    }
}

/// Infère le schéma d'un fichier à partir de ses lignes, de son délimiteur et
/// du mode d'échantillonnage ; tous les champs rendus sont nullables.
pub fn inferer_schema(lignes: &Vec<String>, delimiteur: u8, analyser_tout: bool) -> (r: Option<
    SchemaColonnes,
>)
    ensures
        match r {
            Some(sch) => spec_inferer_schema(vues_chaines(lignes@), delimiteur, analyser_tout)
                == Some(modele_schema(sch)) && forall|j: int|
                0 <= j < sch.champs@.len() ==> sch.champs@[j].nullable,
            None => spec_inferer_schema(vues_chaines(lignes@), delimiteur, analyser_tout) is None,
        },
{
    let ghost lv = vues_chaines(lignes@);
    if lignes.len() == 0 {
        let sch = SchemaColonnes { champs: Vec::new() };
        proof {
            assert(modele_schema(sch) =~= Seq::<(Seq<char>, TypeColonne)>::empty());
        }
        return Some(sch);
    }
    proof {
        assert(lv[0] == lignes@[0]@);
    }
    let entetes: Vec<String> = match csv_analyser_ligne(lignes[0].as_str(), delimiteur) {
        None => {
            return None;
        },
        Some(None) => Vec::new(),
        Some(Some(rec)) => rec,
    };
    let ghost entetes_vues = match champs_csv(lv[0], delimiteur) {
        Some(Some(e)) => e,
        _ => Seq::<Seq<char>>::empty(),
    };
    proof {
        assert(lv[0] == lignes@[0]@);
        assert(vues_chaines(entetes@) =~= entetes_vues);
    }
    let n = entetes.len();
    let mut stats: Vec<StatistiquesColonne> = Vec::new();
    let mut j: usize = 0;
    while j < n
        invariant
            j <= n,
            stats@.len() == j,
            forall|k: int| 0 <= k < j ==> stats@[k] == spec_stats_vides(),
        decreases n - j,
    {
        stats.push(StatistiquesColonne::nouvelle());
        j += 1;
    }
    let ghost init = Seq::new(n as nat, |k: int| spec_stats_vides());
    proof {
        assert(stats@ =~= init);
    }
    let ghost donnees = lv.subrange(1, lv.len() as int);
    let ghost objectif = spec_inferer_depuis(init, 0, donnees, delimiteur, analyser_tout);
    let mut lues: u64 = 0;
    let mut i: usize = 1;
    while i < lignes.len() && (analyser_tout || lues < MAX_LIGNES_INFERENCE)
        invariant
            1 <= i <= lignes@.len(),
            lues <= i - 1,
            lv == vues_chaines(lignes@),
            stats@.len() == n as int,
            forall|k: int|
                0 <= k < n ==> stats_bien_formees(#[trigger] stats@[k])
                    && stats@[k].valeurs_non_nulles <= lues,
            spec_inferer_depuis(
                stats@,
                lues as int,
                lv.subrange(i as int, lv.len() as int),
                delimiteur,
                analyser_tout,
            ) == objectif,
        decreases lignes@.len() - i,
    {
        let ghost reste = lv.subrange(i as int, lv.len() as int);
        let ghost stats_avant = stats@;
        let ghost lues_avant = lues as int;
        proof {
            assert(reste[0] == lignes@[i as int]@);
            assert(reste.drop_first() =~= lv.subrange(i + 1, lv.len() as int));
        }
        match csv_analyser_ligne(lignes[i].as_str(), delimiteur) {
            Some(Some(rec)) => {
                let ghost anciens = stats@;
                let ghost rv = vues_chaines(rec@);
                let mut j: usize = 0;
                while j < n
                    invariant
                        j <= n,
                        stats@.len() == n as int,
                        rv == vues_chaines(rec@),
                        lues < u64::MAX,
                        forall|k: int|
                            0 <= k < n ==> stats_bien_formees(#[trigger] anciens[k])
                                && anciens[k].valeurs_non_nulles <= lues,
                        forall|k: int|
                            0 <= k < j ==> stats@[k] == spec_observer(
                                anciens[k],
                                champ_ou_vide(rv, k),
                            ) && stats_bien_formees(#[trigger] stats@[k])
                                && stats@[k].valeurs_non_nulles <= lues + 1,
                        forall|k: int| j <= k < n ==> stats@[k] == anciens[k],
                    decreases n - j,
                {
                    proof {
                        assert(stats@[j as int] == anciens[j as int]);
                        assert(stats_bien_formees(anciens[j as int]));
                    }
                    let mut st = stats[j];
                    let champ: &str = if j < rec.len() {
                        rec[j].as_str()
                    } else {
                        ""
                    };
                    proof {
                        reveal_strlit("");
                        assert(""@ =~= Seq::<char>::empty());
                        assert(champ@ == champ_ou_vide(rv, j as int));
                    }
                    st.observer_valeur(champ);
                    stats.set(j, st);
                    proof {
                        assert(stats@[j as int] == spec_observer(
                            anciens[j as int],
                            champ_ou_vide(rv, j as int),
                        ));
                    }
                    j += 1;
                }
                proof {
                    assert(stats@ =~= spec_observer_enregistrement(anciens, rv));
                }
                lues = lues + 1;
                proof {
                    assert(spec_inferer_depuis(
                        stats_avant,
                        lues_avant,
                        reste,
                        delimiteur,
                        analyser_tout,
                    ) == spec_inferer_depuis(
                        stats@,
                        lues as int,
                        reste.drop_first(),
                        delimiteur,
                        analyser_tout,
                    ));
                }
            },
            _ => {
                proof {
                    assert(spec_inferer_depuis(
                        stats_avant,
                        lues_avant,
                        reste,
                        delimiteur,
                        analyser_tout,
                    ) == spec_inferer_depuis(
                        stats@,
                        lues as int,
                        reste.drop_first(),
                        delimiteur,
                        analyser_tout,
                    ));
                }
            },
        }
        i += 1;
    }
    proof {
        let reste = lv.subrange(i as int, lv.len() as int);
        if i == lignes@.len() {
            assert(reste.len() == 0);
        }
        assert(spec_inferer_depuis(
            stats@,
            lues as int,
            reste,
            delimiteur,
            analyser_tout,
        ) == stats@);
        assert(objectif == stats@);
    }
    let mut champs: Vec<ChampSchema> = Vec::new();
    let mut j: usize = 0;
    while j < n
        invariant
            j <= n,
            n == entetes@.len(),
            champs@.len() == j,
            stats@.len() == n as int,
            stats@ == objectif,
            forall|k: int|
                0 <= k < n ==> stats_bien_formees(#[trigger] stats@[k]),
            forall|k: int|
                0 <= k < j ==> (#[trigger] champs@[k]).nom@ == entetes@[k]@
                    && champs@[k].type_colonne == spec_choisir_type(objectif[k])
                    && champs@[k].nullable,
        decreases n - j,
    {
        champs.push(
            ChampSchema {
                nom: entetes[j].clone(),
                type_colonne: stats[j].choisir_type_large(),
                nullable: true,
            },
        );
        j += 1;
    }
    let sch = SchemaColonnes { champs };
    proof {
        let finales = spec_inferer_depuis(
            stats_initiales(entetes_vues.len()),
            0,
            lv.subrange(1, lv.len() as int),
            delimiteur,
            analyser_tout,
        );
        assert(init =~= stats_initiales(entetes_vues.len()));
        assert(donnees =~= lv.subrange(1, lv.len() as int));
        assert(finales == objectif);
        assert(modele_schema(sch) =~= modele_depuis(entetes_vues, finales));
        assert(spec_inferer_schema(lv, delimiteur, analyser_tout) == Some(
            modele_depuis(entetes_vues, finales),
        ));
    }
    Some(sch)
}

} // verus!
