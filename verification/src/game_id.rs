//! Short human-friendly lobby identifiers.

use vstd::prelude::*;
use vstd::assert_by_contradiction;
use crate::rng::random_below;

verus! {

pub const GAME_ID_LEN: usize = 4;

/// Code point of the i-th letter of the id alphabet: the runs `A`-`H`,
/// `J`-`U` and `X`-`Z`, leaving out the visually ambiguous `I`, `V` and `W`.
pub open spec fn spec_alphabet_code(i: int) -> int {
    if i < 8 {
        65 + i
    } else if i < 20 {
        66 + i
    } else {
        68 + i
    }
}

/// The i-th of the 23 letters a generated id may use.
pub open spec fn spec_alphabet_char(i: int) -> char {
    ((spec_alphabet_code(i)) as u8) as char
}

/// One of the 23 letters a generated id may use.
pub open spec fn is_id_alphabet_char(c: char) -> bool {
    exists|i: int| 0 <= i < 23 && c == spec_alphabet_char(i)
}

fn alphabet_char(i: usize) -> (c: char)
    requires
        i < 23,
    ensures
        c == spec_alphabet_char(i as int),
        is_id_alphabet_char(c),
{
    let c: char = if i == 0 { 'A' } else if i == 1 { 'B' } else if i == 2 { 'C' }
        else if i == 3 { 'D' } else if i == 4 { 'E' } else if i == 5 { 'F' }
        else if i == 6 { 'G' } else if i == 7 { 'H' } else if i == 8 { 'J' }
        else if i == 9 { 'K' } else if i == 10 { 'L' } else if i == 11 { 'M' }
        else if i == 12 { 'N' } else if i == 13 { 'O' } else if i == 14 { 'P' }
        else if i == 15 { 'Q' } else if i == 16 { 'R' } else if i == 17 { 'S' }
        else if i == 18 { 'T' } else if i == 19 { 'U' } else if i == 20 { 'X' }
        else if i == 21 { 'Y' } else { 'Z' };
    proof {
        assert(0 <= (i as int) && (i as int) < 23 && c == spec_alphabet_char(i as int));
    }
    c
}

/// A four-character lobby id.  Parsing accepts any four characters; generated
/// ids only use `id_alphabet`.
#[derive(Clone, Copy, Debug, PartialEq, Eq, Hash, Structural)]
pub struct GameId {
    pub c0: char,
    pub c1: char,
    pub c2: char,
    pub c3: char,
}

impl GameId {
    pub open spec fn chars(self) -> Seq<char> {
        seq![self.c0, self.c1, self.c2, self.c3]
    }

    /// Accepts exactly the strings of four characters.
    pub fn parse(text: &str) -> (r: Option<GameId>)
        ensures
            match r {
                Some(g) => text@.len() == 4 && g.chars() == text@,
                None => text@.len() != 4,
            },
    {
        let n = text.unicode_len();
        if n == 4 {
            let g = GameId {
                c0: text.get_char(0),
                c1: text.get_char(1),
                c2: text.get_char(2),
                c3: text.get_char(3),
            };
            proof {
                assert(g.chars() =~= text@);
            }
            Some(g)
        } else {
            None
        }
    }

    /// Draws fresh ids until one is found that no existing lobby uses.  After
    /// a generous number of random draws a deterministic sweep of the id
    /// space takes over, so the call always returns; the bound on `existing`
    /// keeps the sweep's candidate space larger than what is taken.  Either
    /// way every character of the result is from the id alphabet.
    pub fn generate(existing: &Vec<GameId>) -> (r: GameId)
        requires
            existing@.len() < 65536,
        ensures
            !existing@.contains(r),
            is_id_alphabet_char(r.c0),
            is_id_alphabet_char(r.c1),
            is_id_alphabet_char(r.c2),
            is_id_alphabet_char(r.c3),
    {
        let mut attempts: usize = 0;
        while attempts < 1000
            invariant
                existing@.len() < 65536,
            decreases 1000 - attempts,
        {
            let candidate = Self::generate_inner();
            if !contains_id(existing, candidate) {
                return candidate;
            }
            attempts += 1;
        }
        Self::first_free(existing)
    }

    /// The first id of the alphabet enumeration that no existing lobby uses.
    /// Among `existing.len() + 1` pairwise distinct candidates one must be
    /// free.
    fn first_free(existing: &Vec<GameId>) -> (r: GameId)
        requires
            existing@.len() < 65536,
        ensures
            !existing@.contains(r),
            is_id_alphabet_char(r.c0),
            is_id_alphabet_char(r.c1),
            is_id_alphabet_char(r.c2),
            is_id_alphabet_char(r.c3),
    {
        let n = existing.len();
        let mut code: usize = 0;
        while code <= n
            invariant
                n == existing@.len() < 65536,
                code <= n + 1,
                forall|k: int| 0 <= k < code ==> existing@.contains(id_of_code(k)),
            decreases n + 1 - code,
        {
            let candidate = Self::of_code(code);
            if !contains_id(existing, candidate) {
                return candidate;
            }
            code += 1;
        }
        proof {
            lemma_some_code_free(existing@, n as int);
        }
        GameId { c0: 'A', c1: 'A', c2: 'A', c3: 'A' }
    }

    /// The id of one code of the enumeration: four base-23 digits written
    /// with the id alphabet.
    fn of_code(code: usize) -> (r: GameId)
        requires
            code < 279841,
        ensures
            r == id_of_code(code as int),
            is_id_alphabet_char(r.c0),
            is_id_alphabet_char(r.c1),
            is_id_alphabet_char(r.c2),
            is_id_alphabet_char(r.c3),
    {
        GameId {
            c0: alphabet_char(code / 12167),
            c1: alphabet_char((code / 529) % 23),
            c2: alphabet_char((code / 23) % 23),
            c3: alphabet_char(code % 23),
        }
    }

    fn generate_inner() -> (r: GameId)
        ensures
            is_id_alphabet_char(r.c0),
            is_id_alphabet_char(r.c1),
            is_id_alphabet_char(r.c2),
            is_id_alphabet_char(r.c3),
    {
        GameId {
            c0: alphabet_char(random_below(23)),
            c1: alphabet_char(random_below(23)),
            c2: alphabet_char(random_below(23)),
            c3: alphabet_char(random_below(23)),
        }
    }

    /// The id as a plain string.
    pub fn to_string(&self) -> (r: String)
        ensures
            r@ == self.chars(),
    {
        let mut v: Vec<char> = Vec::new();
        v.push(self.c0);
        v.push(self.c1);
        v.push(self.c2);
        v.push(self.c3);
        proof {
            assert(v@ =~= self.chars());
        }
        crate::text::chars_to_string(&v)
    }
}

pub open spec fn id_of_code(code: int) -> GameId {
    GameId {
        c0: spec_alphabet_char(code / 12167),
        c1: spec_alphabet_char((code / 529) % 23),
        c2: spec_alphabet_char((code / 23) % 23),
        c3: spec_alphabet_char(code % 23),
    }
}

proof fn lemma_alphabet_char_injective(v1: int, v2: int)
    requires
        0 <= v1 < 23,
        0 <= v2 < 23,
        v1 != v2,
    ensures
        spec_alphabet_char(v1) != spec_alphabet_char(v2),
{
    assert(spec_alphabet_code(v1) != spec_alphabet_code(v2));
}

#[verifier::rlimit(50)]
proof fn lemma_id_of_code_injective(a: int, b: int)
    requires
        0 <= a < 279841,
        0 <= b < 279841,
        a != b,
    ensures
        id_of_code(a) != id_of_code(b),
{
    if a / 12167 != b / 12167 {
        lemma_alphabet_char_injective(a / 12167, b / 12167);
    } else if (a / 529) % 23 != (b / 529) % 23 {
        lemma_alphabet_char_injective((a / 529) % 23, (b / 529) % 23);
    } else if (a / 23) % 23 != (b / 23) % 23 {
        lemma_alphabet_char_injective((a / 23) % 23, (b / 23) % 23);
    } else {
        assert(a % 23 != b % 23) by {
            assert(a == 12167 * (a / 12167) + 529 * ((a / 529) % 23) + 23 * ((a / 23) % 23) + a
                % 23);
            assert(b == 12167 * (b / 12167) + 529 * ((b / 529) % 23) + 23 * ((b / 23) % 23) + b
                % 23);
        }
        lemma_alphabet_char_injective(a % 23, b % 23);
    }
}

/// Pigeonhole: among `n + 1` pairwise distinct candidate ids at least one is
/// missing from a sequence of `n` elements.
proof fn lemma_some_code_free(existing: Seq<GameId>, n: int)
    requires
        existing.len() == n,
        0 <= n < 65536,
    ensures
        exists|k: int| 0 <= k <= n && !existing.contains(id_of_code(k)),
{
    assert_by_contradiction!(exists|k: int| 0 <= k <= n && !existing.contains(id_of_code(k)), {
        let codes = vstd::set_lib::set_int_range(0, n + 1);
        let f = |k: int| id_of_code(k);
        let image = codes.map(f);
        vstd::set_lib::lemma_int_range(0, n + 1);
        assert(vstd::relations::injective_on(f, codes)) by {
            assert forall|x1: int, x2: int|
                codes.contains(x1) && codes.contains(x2) && #[trigger] f(x1) == #[trigger] f(x2)
                implies x1 == x2 by {
                if x1 != x2 {
                    lemma_id_of_code_injective(x1, x2);
                }
            }
        }
        vstd::set_lib::lemma_map_size(codes, image, f);
        assert(image.len() == n + 1);
        let taken = existing.to_set();
        existing.lemma_cardinality_of_set();
        assert(image.subset_of(taken)) by {
            assert forall|g: GameId| image.contains(g) implies taken.contains(g) by {
                let k = choose|k: int| codes.contains(k) && #[trigger] f(k) == g;
                assert(existing.contains(id_of_code(k)));
            }
        }
        vstd::set_lib::lemma_len_subset(image, taken);
    });
}

fn contains_id(v: &Vec<GameId>, id: GameId) -> (r: bool)
    ensures
        r == v@.contains(id),
{
    let mut i: usize = 0;
    while i < v.len()
        invariant
            i <= v@.len(),
            forall|j: int| 0 <= j < i ==> v@[j] != id,
        decreases v@.len() - i,
    {
        if v[i] == id {
            return true;
        }
        i += 1;
    }
    false
}

} // verus!
