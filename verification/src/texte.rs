//! Utilitaires de texte : blancs, rognage, minuscules ASCII et comparaison
//! de chaînes, à la base des analyses lexicales du reste de la bibliothèque.

use vstd::prelude::*;

verus! {

/// Caractères blancs, tels que `char::is_whitespace` de std les définit
/// (propriété Unicode `White_Space`).
pub open spec fn est_blanc_spec(c: char) -> bool {
    c == '\u{09}' || c == '\u{0a}' || c == '\u{0b}' || c == '\u{0c}' || c == '\u{0d}'
        || c == ' ' || c == '\u{85}' || c == '\u{a0}' || c == '\u{1680}'
        || (0x2000 <= (c as u32) && (c as u32) <= 0x200a)
        || c == '\u{2028}' || c == '\u{2029}' || c == '\u{202f}' || c == '\u{205f}'
        || c == '\u{3000}'
}

pub fn est_blanc(c: char) -> (r: bool)
    ensures
        r == est_blanc_spec(c),
{
    c == '\u{09}' || c == '\u{0a}' || c == '\u{0b}' || c == '\u{0c}' || c == '\u{0d}'
        || c == ' ' || c == '\u{85}' || c == '\u{a0}' || c == '\u{1680}'
        || (0x2000 <= (c as u32) && (c as u32) <= 0x200a)
        || c == '\u{2028}' || c == '\u{2029}' || c == '\u{202f}' || c == '\u{205f}'
        || c == '\u{3000}'
}

/// Copie les caractères d'une tranche de chaîne dans un vecteur.
pub fn vers_chars(s: &str) -> (r: Vec<char>)
    ensures
        r@ == s@,
{
    let n = s.unicode_len();
    let mut r: Vec<char> = Vec::new();
    let mut i: usize = 0;
    while i < n
        invariant
            i <= n,
            n == s@.len(),
            r@ == s@.subrange(0, i as int),
        decreases n - i,
    {
        r.push(s.get_char(i));
        proof {
            assert(r@ =~= s@.subrange(0, i + 1));
        }
        i += 1;
    }
    proof {
        assert(s@.subrange(0, n as int) =~= s@);
    }
    r
}

/// Suffixe de `s` privé de ses blancs de tête.
pub open spec fn rogner_gauche(s: Seq<char>) -> Seq<char>
    decreases s.len(),
{
    if s.len() > 0 && est_blanc_spec(s[0]) {
        rogner_gauche(s.drop_first())
    } else {
        s
    }
}

/// Préfixe de `s` privé de ses blancs de queue.
pub open spec fn rogner_droite(s: Seq<char>) -> Seq<char>
    decreases s.len(),
{
    if s.len() > 0 && est_blanc_spec(s[s.len() - 1]) {
        rogner_droite(s.drop_last())
    } else {
        s
    }
}

/// `s` privé de ses blancs de tête et de queue, comme `str::trim` de std.
pub open spec fn rogner(s: Seq<char>) -> Seq<char> {
    rogner_droite(rogner_gauche(s))
}

proof fn lemme_rogner_gauche_indice(s: Seq<char>, i: int)
    requires
        0 <= i <= s.len(),
        forall|k: int| 0 <= k < i ==> est_blanc_spec(s[k]),
        i == s.len() || !est_blanc_spec(s[i]),
    ensures
        rogner_gauche(s) == s.subrange(i, s.len() as int),
    decreases i,
{
    if i == 0 {
        if s.len() > 0 && est_blanc_spec(s[0]) {
            assert(false);
        }
        assert(s.subrange(0, s.len() as int) =~= s);
    } else {
        lemme_rogner_gauche_indice(s.drop_first(), i - 1);
        assert(s.drop_first().subrange(i - 1, s.drop_first().len() as int) =~= s.subrange(
            i,
            s.len() as int,
        ));
    }
}

proof fn lemme_rogner_droite_indice(s: Seq<char>, j: int)
    requires
        0 <= j <= s.len(),
        forall|k: int| j <= k < s.len() ==> est_blanc_spec(s[k]),
        j == 0 || !est_blanc_spec(s[j - 1]),
    ensures
        rogner_droite(s) == s.subrange(0, j),
    decreases s.len(),
{
    if j == s.len() {
        if s.len() > 0 && est_blanc_spec(s[s.len() - 1]) {
            assert(false);
        }
        assert(s.subrange(0, j) =~= s);
    } else {
        assert(est_blanc_spec(s[s.len() - 1]));
        lemme_rogner_droite_indice(s.drop_last(), j);
        assert(s.drop_last().subrange(0, j) =~= s.subrange(0, j));
    }
}

/// Bornes `(debut, fin)` de la partie rognée de `v` : la sous-suite
/// `v@.subrange(debut, fin)` est exactement `rogner(v@)`.
pub fn bornes_rognees(v: &Vec<char>) -> (r: (usize, usize))
    ensures
        r.0 <= r.1 <= v@.len(),
        v@.subrange(r.0 as int, r.1 as int) == rogner(v@),
{
    let n = v.len();
    let mut d: usize = 0;
    while d < n && est_blanc(v[d])
        invariant
            d <= n,
            n == v@.len(),
            forall|k: int| 0 <= k < d ==> est_blanc_spec(v@[k]),
        decreases n - d,
    {
        d += 1;
    }
    proof {
        lemme_rogner_gauche_indice(v@, d as int);
    }
    let mut f: usize = n;
    while f > d && est_blanc(v[f - 1])
        invariant
            d <= f <= n,
            n == v@.len(),
            forall|k: int| f <= k < n ==> est_blanc_spec(v@[k]),
        decreases f,
    {
        f -= 1;
    }
    proof {
        let t = v@.subrange(d as int, n as int);
        lemme_rogner_droite_indice(t, f - d);
        assert(t.subrange(0, f - d) =~= v@.subrange(d as int, f as int));
    }
    (d, f)
}

/// La tranche rognée d'une chaîne, comme `str::trim` de std.
pub fn rogner_texte<'a>(s: &'a str) -> (r: &'a str)
    ensures
        r@ == rogner(s@),
{
    let cs = vers_chars(s);
    let (d, f) = bornes_rognees(&cs);
    s.substring_char(d, f)
}

/// Minuscule ASCII d'un caractère : `A`–`Z` descend de 32, le reste est gardé,
/// comme `char::to_ascii_lowercase` de std.
pub open spec fn minuscule_char(c: char) -> char {
    if 65 <= (c as u32) && (c as u32) <= 90 {
        (((c as u32) + 32) as u8) as char
    } else {
        c
    }
}

/// Minuscules ASCII d'une suite de caractères.
pub open spec fn minuscules(s: Seq<char>) -> Seq<char> {
    s.map_values(|c: char| minuscule_char(c))
}

/// Copie `v[debut..fin]` en minuscules ASCII.
pub fn minuscules_tranche(v: &Vec<char>, debut: usize, fin: usize) -> (r: Vec<char>)
    requires
        debut <= fin <= v@.len(),
    ensures
        r@ == minuscules(v@.subrange(debut as int, fin as int)),
{
    let mut r: Vec<char> = Vec::new();
    let mut i: usize = debut;
    while i < fin
        invariant
            debut <= i <= fin <= v@.len(),
            r@ == minuscules(v@.subrange(debut as int, i as int)),
        decreases fin - i,
    {
        let c = v[i];
        let b: char = if 65 <= (c as u32) && (c as u32) <= 90 {
            (((c as u32) + 32) as u8) as char
        } else {
            c
        };
        r.push(b);
        proof {
            assert(r@ =~= minuscules(v@.subrange(debut as int, i + 1)));
        }
        i += 1;
    }
    r
}

/// Compare un vecteur de caractères au contenu d'une tranche de chaîne.
pub fn egale_chaine(v: &Vec<char>, s: &str) -> (r: bool)
    ensures
        r == (v@ == s@),
{
    let n = s.unicode_len();
    if v.len() != n {
        return false;
    }
    let mut i: usize = 0;
    while i < n
        invariant
            i <= n,
            n == s@.len(),
            v@.len() == n,
            forall|k: int| 0 <= k < i ==> v@[k] == s@[k],
        decreases n - i,
    {
        if v[i] != s.get_char(i) {
            return false;
        }
        i += 1;
    }
    proof {
        assert(v@ =~= s@);
    }
    true
}

} // verus!
