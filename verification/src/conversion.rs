//! Mécanique du pipeline de conversion : politique de taille des blocs,
//! découpage ordonné des lignes en blocs numérotés, tampon de
//! réordonnancement de l'écrivain et fenêtre glissante de débit.

use vstd::prelude::*;

verus! {

/// Capacité de la file bornée des blocs en attente d'analyse.
pub const CAPACITE_FILE_BLOCS: usize = 8;

/// Capacité de la file bornée des lots en attente d'écriture.
pub const CAPACITE_FILE_BATCHES: usize = 8;

/// Largeur de la fenêtre glissante du calcul de débit, en millisecondes.
pub const FENETRE_CALCUL_DEBIT_MS: u64 = 2000;

/// Lignes par bloc selon la largeur du schéma : 250 000 jusqu'à 20 colonnes,
/// 150 000 jusqu'à 50, 5 000 au-delà.
pub open spec fn spec_taille_bloc(nombre_colonnes: int) -> int {
    if nombre_colonnes <= 20 {
        250_000
    } else if nombre_colonnes <= 50 {
        150_000
    } else {
        5_000
    }
}

/// Taille de bloc retenue après l'inférence du schéma.
pub fn taille_bloc_pour(nombre_colonnes: usize) -> (r: usize)
    ensures
        r as int == spec_taille_bloc(nombre_colonnes as int),
        r >= 1,
{
    if nombre_colonnes <= 20 {
        250_000
    } else if nombre_colonnes <= 50 {
        150_000
    } else {
        5_000
    }
}

/// Découpe les lignes de données en blocs contigus de taille fixe, numérotés
/// à partir de zéro dans l'ordre du fichier : le bloc `i` est exactement la
/// `i`-ième tranche consécutive des lignes poussées.
pub struct DecoupeurBlocs {
    taille_bloc: usize,
    courant: Vec<String>,
    indice: usize,
    historique: Ghost<Seq<String>>,
}

impl DecoupeurBlocs {
    /// Taille de bloc demandée à la construction.
    pub closed spec fn taille(self) -> int {
        self.taille_bloc as int
    }

    /// Toutes les lignes poussées depuis la construction, dans l'ordre.
    pub closed spec fn lignes_vues(self) -> Seq<String> {
        self.historique@
    }

    /// Lignes accumulées dans le bloc en cours.
    pub closed spec fn lignes_en_cours(self) -> Seq<String> {
        self.courant@
    }

    /// Indice du prochain bloc émis.
    pub closed spec fn indice_courant(self) -> int {
        self.indice as int
    }

    /// Le bloc en cours reste sous la taille de bloc et porte exactement la
    /// queue des lignes vues, les blocs pleins déjà émis en couvrant le
    /// préfixe.
    pub closed spec fn bien_forme(self) -> bool {
        self.taille_bloc >= 1 && self.courant@.len() < self.taille_bloc && self.historique@.len()
            == (self.indice as int) * (self.taille_bloc as int) + self.courant@.len()
            && self.courant@ == self.historique@.subrange(
            (self.indice as int) * (self.taille_bloc as int),
            self.historique@.len() as int,
        )
    }

    pub fn nouvelle(taille_bloc: usize) -> (r: Self)
        requires
            taille_bloc >= 1,
        ensures
            r.bien_forme(),
            r.taille() == taille_bloc as int,
            r.lignes_vues() == Seq::<String>::empty(),
            r.lignes_en_cours() == Seq::<String>::empty(),
            r.indice_courant() == 0,
    {
        let r = DecoupeurBlocs {
            taille_bloc,
            courant: Vec::new(),
            indice: 0,
            historique: Ghost(Seq::empty()),
        };
        proof {
            assert(0int * (taille_bloc as int) == 0) by (nonlinear_arith);
            assert(r.historique@.subrange(0, 0) =~= Seq::<String>::empty());
        }
        r
    }

    /// Ajoute une ligne au bloc en cours ; quand il atteint la taille de
    /// bloc, le bloc plein sort avec son indice et le suivant commence vide.
    /// Le bloc émis est la tranche des lignes vues qui va de
    /// `indice * taille` exclusivement jusqu'à `(indice + 1) * taille`.
    pub fn pousser_ligne(&mut self, ligne: String) -> (r: Option<(usize, Vec<String>)>)
        requires
            old(self).bien_forme(),
            old(self).indice_courant() < usize::MAX,
        ensures
            final(self).bien_forme(),
            final(self).taille() == old(self).taille(),
            final(self).lignes_vues() == old(self).lignes_vues().push(ligne),
            match r {
                Some(p) => p.1@ == old(self).lignes_en_cours().push(ligne) && p.1@.len() == old(
                    self,
                ).taille() && p.0 == old(self).indice_courant()
                    && p.1@ == final(self).lignes_vues().subrange(
                    p.0 * old(self).taille(),
                    (p.0 + 1) * old(self).taille(),
                ) && final(self).indice_courant() == old(self).indice_courant() + 1
                    && final(self).lignes_en_cours() == Seq::<String>::empty(),
                None => final(self).lignes_en_cours() == old(self).lignes_en_cours().push(ligne)
                    && final(self).indice_courant() == old(self).indice_courant(),
            },
    {
        self.courant.push(ligne);
        proof {
            self.historique@ = self.historique@.push(ligne);
            assert(self.courant@ =~= self.historique@.subrange(
                (self.indice as int) * (self.taille_bloc as int),
                self.historique@.len() as int,
            ));
        }
        if self.courant.len() == self.taille_bloc {
            let mut bloc: Vec<String> = Vec::new();
            core::mem::swap(&mut bloc, &mut self.courant);
            let ind = self.indice;
            self.indice = self.indice + 1;
            proof {
                let t = self.taille_bloc as int;
                assert((ind as int + 1) * t == (ind as int) * t + t) by (nonlinear_arith);
                assert(self.historique@.len() == (ind as int + 1) * t);
                assert(bloc@ =~= self.historique@.subrange(
                    (ind as int) * t,
                    (ind as int + 1) * t,
                ));
                assert(self.courant@ =~= self.historique@.subrange(
                    (self.indice as int) * t,
                    self.historique@.len() as int,
                ));
            }
            Some((ind, bloc))
        } else {
            None
        }
    }

    /// Clôt le découpage : le dernier bloc partiel sort s'il n'est pas vide,
    /// et porte la queue des lignes vues après les blocs pleins.
    pub fn terminer(self) -> (r: Option<(usize, Vec<String>)>)
        requires
            self.bien_forme(),
        ensures
            match r {
                Some(p) => p.1@ == self.lignes_en_cours() && p.1@.len() > 0 && p.0 == self
                    .indice_courant() && p.1@ == self.lignes_vues().subrange(
                    p.0 * self.taille(),
                    self.lignes_vues().len() as int,
                ),
                None => self.lignes_en_cours().len() == 0,
            },
    {
        if self.courant.len() > 0 {
            Some((self.indice, self.courant))
        } else {
            None
        }
    }
}

/// Tampon de réordonnancement de l'écrivain : il retient les lots arrivés en
/// désordre et ne les rend que dans l'ordre strict des indices, à partir de
/// zéro.
pub struct TamponReordonnancement<T> {
    attente: Vec<(usize, T)>,
    prochain: usize,
}

impl<T> TamponReordonnancement<T> {
    /// Paires en attente, dans leur ordre d'arrivée.
    pub closed spec fn paires(self) -> Seq<(usize, T)> {
        self.attente@
    }

    /// Indice du prochain lot à rendre.
    pub closed spec fn prochain_indice(self) -> int {
        self.prochain as int
    }

    /// Les indices en attente sont distincts et aucun n'est déjà passé.
    pub closed spec fn bien_forme(self) -> bool {
        (forall|a: int, b: int|
            0 <= a < b < self.attente@.len() ==> (#[trigger] self.attente@[a]).0 != (
            #[trigger] self.attente@[b]).0) && (forall|a: int|
            0 <= a < self.attente@.len() ==> (#[trigger] self.attente@[a]).0 >= self.prochain)
    }

    pub fn nouvelle() -> (r: Self)
        ensures
            r.bien_forme(),
            r.paires() == Seq::<(usize, T)>::empty(),
            r.prochain_indice() == 0,
    {
        TamponReordonnancement { attente: Vec::new(), prochain: 0 }
    }

    /// Indice du prochain lot attendu, lisible à l'exécution pour garder les
    /// insertions au-dessus du curseur.
    pub fn prochain_a_emettre(&self) -> (r: usize)
        ensures
            r as int == self.prochain_indice(),
    {
        self.prochain
    }

    /// Vrai si un lot d'indice donné attend déjà dans le tampon.
    pub fn contient_indice(&self, indice: usize) -> (r: bool)
        ensures
            r == exists|a: int|
                0 <= a < self.paires().len() && (#[trigger] self.paires()[a]).0 == indice,
    {
        let mut a: usize = 0;
        while a < self.attente.len()
            invariant
                a <= self.attente@.len(),
                forall|k: int| 0 <= k < a ==> (#[trigger] self.attente@[k]).0 != indice,
            decreases self.attente@.len() - a,
        {
            if self.attente[a].0 == indice {
                proof {
                    assert((self.paires()[a as int]).0 == indice);
                }
                return true;
            }
            a += 1;
        }
        false
    }

    /// Range un lot arrivé du pool de travailleuses ; son indice ne doit ni
    /// être déjà passé ni attendre déjà dans le tampon.
    pub fn inserer(&mut self, indice: usize, valeur: T)
        requires
            old(self).bien_forme(),
            indice >= old(self).prochain_indice(),
            forall|a: int|
                0 <= a < old(self).paires().len() ==> (#[trigger] old(self).paires()[a]).0
                    != indice,
        ensures
            final(self).bien_forme(),
            final(self).paires() == old(self).paires().push((indice, valeur)),
            final(self).prochain_indice() == old(self).prochain_indice(),
    {
        self.attente.push((indice, valeur));
        proof {
            let ancien = old(self).attente@;
            assert forall|x: int, y: int|
                0 <= x < y < self.attente@.len() implies (#[trigger] self.attente@[x]).0 != (
            #[trigger] self.attente@[y]).0 by {
                if y < self.attente@.len() - 1 {
                    assert(self.attente@[x] == ancien[x]);
                    assert(self.attente@[y] == ancien[y]);
                } else {
                    assert(self.attente@[x] == ancien[x]);
                    assert(self.attente@[y] == (indice, valeur));
                    assert((old(self).paires()[x]).0 != indice);
                }
            }
            assert forall|x: int|
                0 <= x < self.attente@.len() implies (#[trigger] self.attente@[x]).0
                >= self.prochain by {
                if x < self.attente@.len() - 1 {
                    assert(self.attente@[x] == ancien[x]);
                }
            }
        }
    }

    /// Rend le lot d'indice `prochain` s'il attend, et avance le curseur ;
    /// sinon rien ne sort et rien ne change.
    pub fn prochain_pret(&mut self) -> (r: Option<T>)
        requires
            old(self).bien_forme(),
            old(self).prochain_indice() < usize::MAX,
        ensures
            final(self).bien_forme(),
            match r {
                Some(_) => exists|a: int|
                    0 <= a < old(self).paires().len() && (#[trigger] old(self).paires()[a]).0
                        == old(self).prochain_indice() && r == Some(old(self).paires()[a].1)
                        && final(self).paires() == old(self).paires().remove(a)
                        && final(self).prochain_indice() == old(self).prochain_indice() + 1,
                None => (forall|a: int|
                    0 <= a < old(self).paires().len() ==> (#[trigger] old(self).paires()[a]).0
                        != old(self).prochain_indice()) && *final(self) == *old(self),
            },
    {
        let mut a: usize = 0;
        while a < self.attente.len()
            invariant
                *self == *old(self),
                old(self).bien_forme(),
                old(self).prochain_indice() < usize::MAX,
                a <= self.attente@.len(),
                forall|k: int|
                    0 <= k < a ==> (#[trigger] self.attente@[k]).0 != self.prochain,
            decreases self.attente@.len() - a,
        {
            if self.attente[a].0 == self.prochain {
                let (_, valeur) = self.attente.remove(a);
                self.prochain = self.prochain + 1;
                proof {
                    let ancien = old(self).attente@;
                    assert(ancien[a as int].0 == old(self).prochain);
                    assert(self.attente@ == ancien.remove(a as int));
                    assert forall|x: int|
                        0 <= x < self.attente@.len() implies (#[trigger] self.attente@[x]).0
                        >= self.prochain by {
                        if x < a {
                            assert(self.attente@[x] == ancien[x]);
                            assert(ancien[x].0 != ancien[a as int].0);
                        } else {
                            assert(self.attente@[x] == ancien[x + 1]);
                            assert(ancien[a as int].0 != ancien[x + 1].0);
                        }
                    }
                    assert forall|x: int, y: int|
                        0 <= x < y < self.attente@.len() implies (#[trigger] self.attente@[x]).0
                        != (#[trigger] self.attente@[y]).0 by {
                        let xo: int = if x < a {
                            x
                        } else {
                            x + 1
                        };
                        let yo: int = if y < a {
                            y
                        } else {
                            y + 1
                        };
                        assert(self.attente@[x] == ancien[xo]);
                        assert(self.attente@[y] == ancien[yo]);
                        assert(ancien[xo].0 != ancien[yo].0);
                    }
                    assert((old(self).paires()[a as int]).0 == old(self).prochain_indice());
                    assert(valeur == old(self).paires()[a as int].1);
                }
                return Some(valeur);
            }
            a += 1;
        }
        None
    }
}

/// Fenêtre glissante d'échantillons `(instant en ms, lignes écrites)` d'où
/// sort une estimation de débit en lignes par seconde.
pub struct FenetreDebit {
    echantillons: Vec<(u64, u64)>,
}

/// Retire de la tête les échantillons plus vieux que la fenêtre de calcul.
pub open spec fn spec_elaguer(s: Seq<(u64, u64)>, maintenant: int) -> Seq<(u64, u64)>
    decreases s.len(),
{
    if s.len() > 0 && maintenant - s[0].0 > FENETRE_CALCUL_DEBIT_MS {
        spec_elaguer(s.drop_first(), maintenant)
    } else {
        s
    }
}

/// Estimation du débit : avec au moins deux échantillons, un intervalle
/// strictement positif et des lignes qui avancent, le quotient
/// `lignes gagnées * 1000 / millisecondes écoulées` arrondi au plus proche,
/// au moins 1, saturé à `u64::MAX` ; sinon rien.
pub open spec fn spec_estimer(s: Seq<(u64, u64)>) -> Option<u64> {
    if s.len() >= 2 {
        let dt = s.last().0 - s[0].0;
        let dl = s.last().1 - s[0].1;
        if dt > 0 && dl > 0 {
            let brut = (2 * dl * 1000 + dt) / (2 * dt);
            if brut > u64::MAX {
                Some(u64::MAX)
            } else if brut >= 1 {
                Some(brut as u64)
            } else {
                Some(1)
            }
        } else {
            None
        }
    } else {
        None
    }
}

impl FenetreDebit {
    pub closed spec fn vue(self) -> Seq<(u64, u64)> {
        self.echantillons@
    }

    pub fn nouvelle() -> (r: Self)
        ensures
            r.vue() == Seq::<(u64, u64)>::empty(),
    {
        FenetreDebit { echantillons: Vec::new() }
    }

    /// Ajoute un échantillon puis élague la tête hors fenêtre.
    pub fn pousser(&mut self, instant_ms: u64, lignes: u64)
        ensures
            final(self).vue() == spec_elaguer(
                old(self).vue().push((instant_ms, lignes)),
                instant_ms as int,
            ),
    {
        self.echantillons.push((instant_ms, lignes));
        let ghost pousse = self.echantillons@;
        while self.echantillons.len() > 0 && (self.echantillons[0].0 as u128) + (
        FENETRE_CALCUL_DEBIT_MS as u128) < (instant_ms as u128)
            invariant
                spec_elaguer(pousse, instant_ms as int) == spec_elaguer(
                    self.echantillons@,
                    instant_ms as int,
                ),
            decreases self.echantillons@.len(),
        {
            proof {
                assert(self.echantillons@.drop_first() =~= self.echantillons@.subrange(
                    1,
                    self.echantillons@.len() as int,
                ));
            }
            self.echantillons.remove(0);
        }
        proof {
            assert(spec_elaguer(self.echantillons@, instant_ms as int) == self.echantillons@);
        }
    }

    /// Estime le débit courant en lignes par seconde.
    pub fn estimer(&self) -> (r: Option<u64>)
        ensures
            r == spec_estimer(self.vue()),
    {
        let n = self.echantillons.len();
        if n < 2 {
            return None;
        }
        let (t0, l0) = self.echantillons[0];
        let (t1, l1) = self.echantillons[n - 1];
        if t1 > t0 && l1 > l0 {
            let dt = (t1 - t0) as u128;
            let dl = (l1 - l0) as u128;
            proof {
                assert(2u128 * dl * 1000u128 + dt <= 340282366920938463463374607431768211455u128)
                    by (nonlinear_arith)
                    requires
                        dl <= 18446744073709551615u128,
                        dt <= 18446744073709551615u128,
                ;
            }
            let brut = (2 * dl * 1000 + dt) / (2 * dt);
            if brut > (u64::MAX as u128) {
                Some(u64::MAX)
            } else if brut >= 1 {
                Some(brut as u64)
            } else {
                Some(1)
            }
        } else {
            None
        }
    }
}

} // verus!
