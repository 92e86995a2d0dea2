//! Random identifiers for the rows that the monitor writes.

use vstd::prelude::*;
use vstd::string::*;
use rand::Rng;

verus! {

/// The characters that an identifier is drawn from.
pub const CHARSET: &'static str = "ABCDEFGHIJKLMNOPQRSTUVWXYZabcdefghijklmnopqrstuvwxyz0123456789";

/// The number of characters of an identifier.
pub const ID_LENGTH: usize = 16;

/// A sequence of `ID_LENGTH` characters, each one of `CHARSET`.
pub open spec fn is_id(s: Seq<char>) -> bool {
    s.len() == ID_LENGTH && forall|i: int| 0 <= i < s.len() ==> CHARSET@.contains(#[trigger] s[i])
}

/// The identifier that a sequence of positions in `CHARSET` spells.
pub open spec fn id_of(picks: Seq<usize>) -> Seq<char> {
    Seq::new(picks.len(), |i: int| CHARSET@[picks[i] as int])
}

/// `rand::rngs::ThreadRng`, the handle to a thread's generator. Nothing of
/// what is inside is visible here.
#[verifier::external_type_specification]
#[verifier::external_body]
pub struct ExThreadRng(rand::rngs::ThreadRng);

/// `rand::rng`: a handle to the thread's random number generator. Nothing
/// is claimed of it.
#[verifier::external_body]
fn thread_rng() -> (rng: rand::rngs::ThreadRng) {
    rand::rng()
}

/// `rand::Rng::random_range` on the range from 0 up to, not including,
/// `bound`: some number of that range. The range must not be empty.
#[verifier::external_body]
fn random_below(rng: &mut rand::rngs::ThreadRng, bound: usize) -> (pick: usize)
    requires
        bound > 0,
    ensures
        pick < bound,
{
    rng.random_range(0..bound)
}

/// Spells the identifier that `picks` stands for: one character of
/// `CHARSET` per position.
pub fn id_from_picks(picks: &Vec<usize>) -> (id: String)
    requires
        forall|i: int| 0 <= i < picks@.len() ==> picks@[i] < CHARSET@.len(),
    ensures
        id@ == id_of(picks@),
{
    proof {
        reveal_strlit("ABCDEFGHIJKLMNOPQRSTUVWXYZabcdefghijklmnopqrstuvwxyz0123456789");
    }
    assert(CHARSET.is_ascii()) by {
        reveal_strlit("ABCDEFGHIJKLMNOPQRSTUVWXYZabcdefghijklmnopqrstuvwxyz0123456789");
    }
    let mut id = String::new();
    let mut i: usize = 0;
    while i < picks.len()
        invariant
            i <= picks.len(),
            CHARSET.is_ascii(),
            CHARSET@.len() == 62,
            forall|k: int| 0 <= k < picks@.len() ==> picks@[k] < CHARSET@.len(),
            id@ == id_of(picks@.take(i as int)),
        decreases picks.len() - i,
    {
        let pick = picks[i];
        let letter = CHARSET.substring_ascii(pick, pick + 1);
        id.append(letter);
        proof {
            assert(letter@ == seq![CHARSET@[pick as int]]);
            assert(id@ == id_of(picks@.take(i + 1)));
        }
        i += 1;
    }
    proof {
        assert(picks@.take(i as int) == picks@);
    }
    id
}

/// Draws a fresh identifier: `ID_LENGTH` characters of `CHARSET`, each
/// picked at random.
pub fn generate_id() -> (id: String)
    ensures
        is_id(id@),
{
    proof {
        reveal_strlit("ABCDEFGHIJKLMNOPQRSTUVWXYZabcdefghijklmnopqrstuvwxyz0123456789");
    }
    let mut rng = thread_rng();
    let bound = CHARSET.unicode_len();
    let mut picks: Vec<usize> = Vec::new();
    while picks.len() < ID_LENGTH
        invariant
            picks@.len() <= ID_LENGTH,
            bound == CHARSET@.len(),
            bound > 0,
            forall|k: int| 0 <= k < picks@.len() ==> picks@[k] < CHARSET@.len(),
        decreases ID_LENGTH - picks@.len(),
    {
        let pick = random_below(&mut rng, bound);
        picks.push(pick);
    }
    let id = id_from_picks(&picks);
    proof {
        assert forall|i: int| 0 <= i < id@.len() implies CHARSET@.contains(#[trigger] id@[i]) by {
            assert(id@[i] == CHARSET@[picks@[i] as int]);
        }
    }
    id
}

} // verus!
