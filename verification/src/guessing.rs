//! The decision logic of the number-guessing game: comparing a guess against
//! the secret, and the trace of outcomes a whole sequence of guesses produces.

use rand::Rng;
use vstd::prelude::*;

verus! {

/// The three possible answers to a single guess.
#[derive(Clone, Copy, Debug, PartialEq, Eq, Structural)]
pub enum GuessOutcome {
    TooSmall,
    TooBig,
    Win,
}

/// The answer owed to a single guess against a given secret.
pub open spec fn outcome_of(guess: u32, secret: u32) -> GuessOutcome {
    if guess < secret {
        GuessOutcome::TooSmall
    } else if guess > secret {
        GuessOutcome::TooBig
    } else {
        GuessOutcome::Win
    }
}

/// Compares one guess against the secret.
pub fn evaluate_guess(guess: u32, secret: u32) -> (r: GuessOutcome)
    ensures
        r == outcome_of(guess, secret),
{
    if guess < secret {
        GuessOutcome::TooSmall
    } else if guess > secret {
        GuessOutcome::TooBig
    } else {
        GuessOutcome::Win
    }
}

/// The answers a game gives to a sequence of guesses, in order: one answer
/// per guess up to and including the first winning guess, after which no
/// further guess is considered.
pub open spec fn game_trace(secret: u32, guesses: Seq<u32>) -> Seq<GuessOutcome>
    decreases guesses.len(),
{
    if guesses.len() == 0 {
        Seq::empty()
    } else if guesses[0] == secret {
        seq![GuessOutcome::Win]
    } else {
        seq![outcome_of(guesses[0], secret)] + game_trace(secret, guesses.skip(1))
    }
}

/// Plays a whole game against a fixed secret: answers each guess in turn and
/// stops at the first exact match, reading no guess past it.
pub fn play_guesses(secret: u32, guesses: &Vec<u32>) -> (r: Vec<GuessOutcome>)
    ensures
        r@ == game_trace(secret, guesses@),
{
    let mut out: Vec<GuessOutcome> = Vec::new();
    let mut i: usize = 0;
    proof {
        assert(guesses@.skip(0) =~= guesses@);
        assert(out@ + game_trace(secret, guesses@.skip(0)) =~= game_trace(secret, guesses@));
    }
    while i < guesses.len()
        invariant
            i <= guesses@.len(),
            game_trace(secret, guesses@) == out@ + game_trace(secret, guesses@.skip(i as int)),
        decreases guesses@.len() - i,
    {
        let g = guesses[i];
        let o = evaluate_guess(g, secret);
        out.push(o);
        if g == secret {
            proof {
                let rest = guesses@.skip(i as int);
                assert(rest[0] == guesses@[i as int]);
                assert(game_trace(secret, rest) =~= seq![GuessOutcome::Win]);
                assert(out@ =~= game_trace(secret, guesses@));
            }
            return out;
        }
        proof {
            let rest = guesses@.skip(i as int);
            assert(rest[0] == guesses@[i as int]);
            assert(rest.skip(1) =~= guesses@.skip(i as int + 1));
            assert(out@ + game_trace(secret, guesses@.skip(i as int + 1)) =~= game_trace(
                secret,
                guesses@,
            ));
        }
        i = i + 1;
    }
    proof {
        assert(guesses@.skip(i as int) =~= Seq::<u32>::empty());
        assert(out@ =~= game_trace(secret, guesses@));
    }
    out
}

/// For any secret and any sequence of guesses, the game's trace answers every
/// guess below the secret with `TooSmall` and every guess above with `TooBig`,
/// contains no winning answer before its end, and stops early exactly when a
/// guess hits the secret, after which no further guess is answered.
pub proof fn lemma_game_trace_correct(secret: u32, guesses: Seq<u32>)
    ensures
        game_trace(secret, guesses).len() <= guesses.len(),
        forall|i: int|
            0 <= i < game_trace(secret, guesses).len() ==> game_trace(secret, guesses)[i]
                == outcome_of(guesses[i], secret),
        forall|i: int| 0 <= i < game_trace(secret, guesses).len() - 1 ==> guesses[i] != secret,
        game_trace(secret, guesses).len() < guesses.len() ==> guesses[game_trace(
            secret,
            guesses,
        ).len() - 1] == secret,
    decreases guesses.len(),
{
    if guesses.len() == 0 {
    } else if guesses[0] == secret {
    } else {
        lemma_game_trace_correct(secret, guesses.skip(1));
        assert forall|i: int| 0 <= i < game_trace(secret, guesses).len() implies game_trace(
            secret,
            guesses,
        )[i] == outcome_of(guesses[i], secret) by {
            if i > 0 {
                assert(guesses.skip(1)[i - 1] == guesses[i]);
                assert(game_trace(secret, guesses)[i] == game_trace(secret, guesses.skip(1))[i
                    - 1]);
            }
        }
        assert forall|i: int|
            0 <= i < game_trace(secret, guesses).len() - 1 implies guesses[i] != secret by {
            if i > 0 {
                assert(guesses.skip(1)[i - 1] == guesses[i]);
            }
        }
    }
}

/// Relies on `rand::Rng::gen_range` over an inclusive integer range: the
/// sampled value lies within the bounds; the call panics only when the range
/// is empty, which the precondition rules out.
#[verifier::external_body]
fn random_in_range(lo: u32, hi: u32) -> (r: u32)
    requires
        lo <= hi,
    ensures
        lo <= r <= hi,
{
    rand::thread_rng().gen_range(lo..=hi)
}

/// Draws a fresh secret for a game, always within 1 and 100 inclusive.
pub fn pick_secret() -> (r: u32)
    ensures
        1 <= r <= 100,
{
    random_in_range(1, 100)
}

} // verus!
