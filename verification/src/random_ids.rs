use rand::seq::SliceRandom;
use vstd::prelude::*;

verus! {

/// How many letters a session id has.
pub const SESSION_ID_LENGTH: usize = 8;

/// Whether `c` may stand in a random id: an upper-case ASCII letter.
pub open spec fn is_id_letter(c: char) -> bool {
    'A' <= c && c <= 'Z'
}

/// Whether `s` is a random id of `length` letters.
pub open spec fn is_random_id(s: Seq<char>, length: nat) -> bool {
    &&& s.len() == length
    &&& forall|i: int| 0 <= i < s.len() ==> is_id_letter(#[trigger] s[i])
}

/// Picks one of `letters` with `rand`'s `SliceRandom::choose` on the thread's
/// generator: nothing when `letters` is empty, else one of them; which one
/// rests on chance.
#[verifier::external_body]
fn choose_letter(letters: &[u8]) -> (res: Option<u8>)
    ensures
        res is None <==> letters@.len() == 0,
        match res {
            Some(c) => letters@.contains(c),
            None => true,
        },
{
    letters.choose(&mut rand::thread_rng()).copied()
}

/// Appends `c` to `s` with `String::push`.
#[verifier::external_body]
fn push_char(s: &mut String, c: char)
    ensures
        final(s)@ == old(s)@.push(c),
{
    s.push(c);
}

/// A random id of `length` upper-case letters.
pub fn get_random_id(length: usize) -> (code: String)
    ensures
        is_random_id(code@, length as nat),
{
    // The letters A to Z
    let letters: [u8; 26] = [
        65, 66, 67, 68, 69, 70, 71, 72, 73, 74, 75, 76, 77, 78, 79, 80, 81, 82, 83, 84, 85, 86,
        87, 88, 89, 90,
    ];
    assert(forall|i: int| 0 <= i < 26 ==> 65 <= #[trigger] letters@[i] <= 90);
    let mut code = String::new();
    let mut n: usize = 0;
    while n < length
        invariant
            n <= length,
            is_random_id(code@, n as nat),
            letters@.len() == 26,
            forall|i: int| 0 <= i < 26 ==> 65 <= #[trigger] letters@[i] <= 90,
        decreases length - n,
    {
        let picked = choose_letter(letters.as_slice());
        match picked {
            Some(c) => {
                assert(65 <= c <= 90) by {
                    assert(letters@[letters@.index_of(c)] == c);
                }
                push_char(&mut code, c as char);
            },
            None => {
                assert(letters@.len() == 0);
            },
        }
        n = n + 1;
    }
    code
}

} // verus!
