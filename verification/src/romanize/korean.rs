//! Korean by Revised Romanization, with the sound changes at syllable boundaries: liaison,
//! aspiration, nasalisation and the ㄹ rules (tensing is not written, so it is not modelled).

use vstd::prelude::*;

use crate::text::{chars_of, push_text, str_eq, string_of};

verus! {

/// Initial consonants, in Unicode's order.
pub const INITIAL: [&'static str; 19] = [
    "g", "kk", "n", "d", "tt", "r", "m", "b", "pp", "s", "ss", "", "j", "jj", "ch", "k", "t", "p",
    "h",
];

/// Vowels, in Unicode's order.
pub const MEDIAL: [&'static str; 21] = [
    "a", "ae", "ya", "yae", "eo", "e", "yeo", "ye", "o", "wa", "wae", "oe", "yo", "u", "wo", "we",
    "wi", "yu", "eu", "ui", "i",
];

/// What a final sounds like before a consonant or at the end of a word (0 = no final).
pub const CODA: [&'static str; 28] = [
    "", "k", "k", "k", "n", "n", "n", "t", "l", "k", "m", "l", "l", "l", "p", "l", "m", "p", "p",
    "t", "t", "ng", "t", "t", "k", "t", "p", "t",
];

/// A final carried over onto a following vowel: what stays, and what moves.
pub const LIAISON_STAY: [&'static str; 28] = [
    "", "", "", "k", "", "n", "", "", "", "l", "l", "l", "l", "l", "l", "", "", "", "p", "", "",
    "ng", "", "", "", "", "", "",
];

pub const LIAISON_MOVE: [&'static str; 28] = [
    "", "g", "kk", "s", "n", "j", "n", "d", "r", "g", "m", "b", "s", "t", "p", "r", "m", "b", "s",
    "s", "ss", "", "j", "ch", "k", "t", "p", "",
];

// Final consonant indices.
pub const F_G: usize = 1;
pub const F_NH: usize = 6;
pub const F_D: usize = 7;
pub const F_LG: usize = 9;
pub const F_LH: usize = 15;
pub const F_B: usize = 17;
pub const F_J: usize = 22;
pub const F_T: usize = 25;
pub const F_H: usize = 27;

// Initial indices.
pub const I_G: usize = 0;
pub const I_N: usize = 2;
pub const I_D: usize = 3;
pub const I_R: usize = 5;
pub const I_M: usize = 6;
pub const I_SILENT: usize = 11;
pub const I_J: usize = 12;
pub const I_H: usize = 18;

pub open spec fn initial_of(i: int) -> Seq<char> {
    INITIAL@[i]@
}

pub open spec fn medial_of(i: int) -> Seq<char> {
    MEDIAL@[i]@
}

pub open spec fn coda_of(i: int) -> Seq<char> {
    CODA@[i]@
}

/// The sounds at one syllable boundary: the romanized final of the first syllable and the
/// initial of the second.
pub open spec fn link_of(fin: int, ini: int, next_medial: int) -> (Seq<char>, Seq<char>) {
    if ini == I_SILENT {
        if fin == F_D && next_medial == 20 {
            (""@, "j"@)
        } else if fin == F_T && next_medial == 20 {
            (""@, "ch"@)
        } else {
            (LIAISON_STAY@[fin]@, LIAISON_MOVE@[fin]@)
        }
    } else if (fin == F_H || fin == F_NH || fin == F_LH) && (ini == I_G || ini == I_D || ini
        == I_J) {
        (
            if fin == F_NH {
                "n"@
            } else if fin == F_LH {
                "l"@
            } else {
                ""@
            },
            if ini == I_G {
                "k"@
            } else if ini == I_D {
                "t"@
            } else {
                "ch"@
            },
        )
    } else if fin == F_H && ini == I_N {
        ("n"@, "n"@)
    } else if (fin == F_G || fin == F_LG) && ini == I_H {
        (""@, "k"@)
    } else if fin == F_D && ini == I_H {
        (""@, "t"@)
    } else if fin == F_B && ini == I_H {
        (""@, "p"@)
    } else if fin == F_J && ini == I_H {
        (""@, "ch"@)
    } else {
        let coda = if fin == F_LG && ini == I_G {
            "l"@
        } else {
            coda_of(fin)
        };
        let nasal = ini == I_N || ini == I_M;
        if coda == "k"@ && nasal {
            ("ng"@, initial_of(ini))
        } else if coda == "t"@ && nasal {
            ("n"@, initial_of(ini))
        } else if coda == "p"@ && nasal {
            ("m"@, initial_of(ini))
        } else if ((coda == "n"@ || coda == "l"@) && ini == I_R) || (coda == "l"@ && ini == I_N) {
            ("l"@, "l"@)
        } else if (coda == "m"@ || coda == "ng"@) && ini == I_R {
            (coda, "n"@)
        } else if coda == "k"@ && ini == I_R {
            ("ng"@, "n"@)
        } else if coda == "p"@ && ini == I_R {
            ("m"@, "n"@)
        } else if coda == "t"@ && ini == I_R {
            ("n"@, "n"@)
        } else {
            (coda, initial_of(ini))
        }
    }
}

/// The sounds at one syllable boundary.
pub fn link(fin: usize, ini: usize, next_medial: usize) -> (r: (&'static str, &'static str))
    requires
        fin < 28,
        ini < 19,
        next_medial < 21,
    ensures
        (r.0@, r.1@) == link_of(fin as int, ini as int, next_medial as int),
{
    if ini == I_SILENT {
        if fin == F_D && next_medial == 20 {
            return ("", "j");
        }
        if fin == F_T && next_medial == 20 {
            return ("", "ch");
        }
        return (LIAISON_STAY[fin], LIAISON_MOVE[fin]);
    }
    if (fin == F_H || fin == F_NH || fin == F_LH) && (ini == I_G || ini == I_D || ini == I_J) {
        let rest = if fin == F_NH {
            "n"
        } else if fin == F_LH {
            "l"
        } else {
            ""
        };
        let aspirated = if ini == I_G {
            "k"
        } else if ini == I_D {
            "t"
        } else {
            "ch"
        };
        return (rest, aspirated);
    }
    if fin == F_H && ini == I_N {
        return ("n", "n");
    }
    if (fin == F_G || fin == F_LG) && ini == I_H {
        return ("", "k");
    }
    if fin == F_D && ini == I_H {
        return ("", "t");
    }
    if fin == F_B && ini == I_H {
        return ("", "p");
    }
    if fin == F_J && ini == I_H {
        return ("", "ch");
    }
    let coda: &'static str = if fin == F_LG && ini == I_G {
        "l"
    } else {
        CODA[fin]
    };
    let nasal = ini == I_N || ini == I_M;
    let (k, t, p) = (str_eq(coda, "k"), str_eq(coda, "t"), str_eq(coda, "p"));
    let (n, l) = (str_eq(coda, "n"), str_eq(coda, "l"));
    let (m, ng) = (str_eq(coda, "m"), str_eq(coda, "ng"));
    if k && nasal {
        ("ng", INITIAL[ini])
    } else if t && nasal {
        ("n", INITIAL[ini])
    } else if p && nasal {
        ("m", INITIAL[ini])
    } else if ((n || l) && ini == I_R) || (l && ini == I_N) {
        ("l", "l")
    } else if (m || ng) && ini == I_R {
        (coda, "n")
    } else if k && ini == I_R {
        ("ng", "n")
    } else if p && ini == I_R {
        ("m", "n")
    } else if t && ini == I_R {
        ("n", "n")
    } else {
        (coda, INITIAL[ini])
    }
}

/// A Hangul syllable.
pub open spec fn is_syllable(c: char) -> bool {
    0xAC00 <= (c as u32) <= 0xD7A3
}

/// Initial, vowel and final indices of a Hangul syllable.
pub open spec fn syl_ini(c: char) -> int {
    ((c as u32) - 0xAC00) / 588
}

pub open spec fn syl_med(c: char) -> int {
    (((c as u32) - 0xAC00) % 588) / 28
}

pub open spec fn syl_fin(c: char) -> int {
    ((c as u32) - 0xAC00) % 28
}

/// The romanization from syllable `i` on, its onset already decided by what came before.
pub open spec fn korean_from(cs: Seq<char>, i: int, onset: Seq<char>) -> Seq<char>
    decreases cs.len() - i,
{
    if i < 0 || i >= cs.len() {
        seq![]
    } else {
        let fin = syl_fin(cs[i]);
        let cn = if i + 1 < cs.len() {
            link_of(fin, syl_ini(cs[i + 1]), syl_med(cs[i + 1]))
        } else {
            (coda_of(fin), ""@)
        };
        onset + medial_of(syl_med(cs[i])) + cn.0 + korean_from(cs, i + 1, cn.1)
    }
}

/// The romanization of a run of Hangul syllables (one word).
pub open spec fn korean_text(cs: Seq<char>) -> Seq<char> {
    korean_from(cs, 0, initial_of(syl_ini(cs[0])))
}

fn syllable(c: char) -> (r: (usize, usize, usize))
    requires
        is_syllable(c),
    ensures
        r.0 == syl_ini(c) && r.1 == syl_med(c) && r.2 == syl_fin(c),
        r.0 < 19 && r.1 < 21 && r.2 < 28,
{
    let s: usize = (c as u32 - 0xAC00) as usize;
    assert(s <= 11171);
    assert(s / 588 < 19) by (nonlinear_arith)
        requires
            s <= 11171,
    ;
    assert((s % 588) / 28 < 21) by (nonlinear_arith);
    (s / 588, (s % 588) / 28, s % 28)
}

/// One run of Hangul syllables, which is one word: the sound changes apply inside a word only.
pub fn korean(run: &str) -> (r: String)
    requires
        run@.len() > 0,
        forall|i: int| 0 <= i < run@.len() ==> is_syllable(#[trigger] run@[i]),
    ensures
        r@ == korean_text(run@),
{
    let cs = chars_of(run);
    let n = cs.len();
    let first = syllable(cs[0]);
    let mut onset: &'static str = INITIAL[first.0];
    let mut out: Vec<char> = Vec::new();
    let mut i: usize = 0;
    while i < n
        invariant
            n == cs@.len(),
            cs@ == run@,
            0 <= i <= n,
            forall|j: int| 0 <= j < n ==> is_syllable(#[trigger] cs@[j]),
            out@ + korean_from(cs@, i as int, onset@) == korean_text(cs@),
        decreases n - i,
    {
        let (_, medial, fin) = syllable(cs[i]);
        push_text(&mut out, onset);
        push_text(&mut out, MEDIAL[medial]);
        let (coda, next): (&'static str, &'static str) = if i + 1 < n {
            let (ini2, med2, _) = syllable(cs[i + 1]);
            link(fin, ini2, med2)
        } else {
            (CODA[fin], "")
        };
        push_text(&mut out, coda);
        proof {
            assert(korean_from(cs@, i as int, onset@) == onset@ + medial_of(syl_med(cs@[i as int]))
                + coda@ + korean_from(cs@, i + 1, next@));
        }
        onset = next;
        i += 1;
    }
    string_of(out.as_slice())
}

/// The finals' sounds are distinct texts.
proof fn lemma_codas_distinct()
    ensures
        "m"@ != "ng"@,
        "m"@ != "k"@,
        "m"@ != "t"@,
        "m"@ != "p"@,
        "m"@ != "n"@,
        "m"@ != "l"@,
        "ng"@ != "k"@,
        "ng"@ != "t"@,
        "ng"@ != "p"@,
        "ng"@ != "n"@,
        "ng"@ != "l"@,
        "k"@ != "t"@,
        "k"@ != "p"@,
        "k"@ != "n"@,
        "k"@ != "l"@,
        "t"@ != "p"@,
        "t"@ != "n"@,
        "t"@ != "l"@,
        "p"@ != "n"@,
        "p"@ != "l"@,
        "n"@ != "l"@,
{
    reveal_strlit("m");
    reveal_strlit("ng");
    reveal_strlit("k");
    reveal_strlit("t");
    reveal_strlit("p");
    reveal_strlit("n");
    reveal_strlit("l");
    assert("m"@.len() != "ng"@.len());
    assert("m"@[0] != "k"@[0]);
    assert("m"@[0] != "t"@[0]);
    assert("m"@[0] != "p"@[0]);
    assert("m"@[0] != "n"@[0]);
    assert("m"@[0] != "l"@[0]);
    assert("ng"@.len() != "k"@.len());
    assert("ng"@.len() != "t"@.len());
    assert("ng"@.len() != "p"@.len());
    assert("ng"@.len() != "n"@.len());
    assert("ng"@.len() != "l"@.len());
    assert("k"@[0] != "t"@[0]);
    assert("k"@[0] != "p"@[0]);
    assert("k"@[0] != "n"@[0]);
    assert("k"@[0] != "l"@[0]);
    assert("t"@[0] != "p"@[0]);
    assert("t"@[0] != "n"@[0]);
    assert("t"@[0] != "l"@[0]);
    assert("p"@[0] != "n"@[0]);
    assert("p"@[0] != "l"@[0]);
    assert("n"@[0] != "l"@[0]);
}

/// The sound changes of Revised Romanization at a syllable boundary before ㄴ, ㅁ or ㄹ, stated
/// by the final's own sound:
/// - a final that sounds m or ng keeps it, and ㄹ after it reads n (종로 "jongno", 심리 "simni");
/// - a final k, t or p before ㄴ or ㅁ becomes ng, n or m, the initial unchanged (한국말
///   "hangungmal", 입니다 "imnida");
/// - before ㄹ it becomes ng, n or m too, and the ㄹ reads n;
/// - n or l before ㄹ, and l before ㄴ, read "l" "l" (신라 "silla", 몰라 "molla").
pub proof fn law_boundary_assimilation(fin: int, ini: int, v: int)
    requires
        0 <= fin < 28,
        ini == I_N || ini == I_M || ini == I_R,
    ensures
        (coda_of(fin) == "m"@ || coda_of(fin) == "ng"@) && ini == I_R ==> link_of(fin, ini, v) == (
            coda_of(fin),
            "n"@,
        ),
        coda_of(fin) == "k"@ && ini != I_R ==> link_of(fin, ini, v) == ("ng"@, initial_of(ini)),
        coda_of(fin) == "t"@ && ini != I_R ==> link_of(fin, ini, v) == ("n"@, initial_of(ini)),
        coda_of(fin) == "p"@ && ini != I_R ==> link_of(fin, ini, v) == ("m"@, initial_of(ini)),
        coda_of(fin) == "k"@ && ini == I_R ==> link_of(fin, ini, v) == ("ng"@, "n"@),
        coda_of(fin) == "t"@ && ini == I_R ==> link_of(fin, ini, v) == ("n"@, "n"@),
        coda_of(fin) == "p"@ && ini == I_R ==> link_of(fin, ini, v) == ("m"@, "n"@),
        (coda_of(fin) == "n"@ || coda_of(fin) == "l"@) && ini == I_R ==> link_of(fin, ini, v) == (
            "l"@,
            "l"@,
        ),
        coda_of(fin) == "l"@ && ini == I_N ==> link_of(fin, ini, v) == ("l"@, "l"@),
{
    lemma_codas_distinct();
    assert(coda_of(F_H as int) == "t"@);
    assert(initial_of(I_N as int) == "n"@);
    assert(ini != I_SILENT && ini != I_G && ini != I_D && ini != I_J && ini != I_H);
    if coda_of(fin) == "k"@ && ini != I_R {
        assert(fin != F_H);
        assert(link_of(fin, ini, v) == ("ng"@, initial_of(ini)));
    }
    if coda_of(fin) == "t"@ && ini != I_R {
        if fin == F_H && ini == I_N {
            assert(link_of(fin, ini, v) == ("n"@, "n"@));
        } else {
            assert(link_of(fin, ini, v) == ("n"@, initial_of(ini)));
        }
    }
}

} // verus!
