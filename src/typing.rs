use vstd::prelude::*;

verus! {

/// Pause after pressing or releasing a letter key, in milliseconds.
pub const KEY_DELAY_MS: u64 = 10;

/// Pause after pressing or releasing the submit key, in milliseconds.
pub const SUBMIT_DELAY_MS: u64 = 25;

/// One step of entering words into a focused window.
#[derive(PartialEq, Eq, Structural, Clone, Copy, Debug)]
pub enum KeyAction {
    /// Press the key of a character.
    Press(char),
    /// Release the key of a character.
    Release(char),
    /// Press the submit (return) key.
    PressReturn,
    /// Release the submit (return) key.
    ReleaseReturn,
    /// Wait this many milliseconds.
    Wait(u64),
}

/// The steps that type one character.
pub open spec fn char_steps(c: char) -> Seq<KeyAction> {
    Seq::empty().push(KeyAction::Press(c)).push(KeyAction::Wait(KEY_DELAY_MS)).push(
        KeyAction::Release(c),
    ).push(KeyAction::Wait(KEY_DELAY_MS))
}

/// The steps that type the characters of `w`, in order.
pub open spec fn chars_steps(w: Seq<char>) -> Seq<KeyAction>
    decreases w.len(),
{
    if w.len() == 0 {
        Seq::empty()
    } else {
        chars_steps(w.drop_last()) + char_steps(w.last())
    }
}

/// The steps that submit a word: the return key is pressed twice, in case
/// the first press is lost, and then the pause between words follows.
pub open spec fn submit_steps(delay_ms: u64) -> Seq<KeyAction> {
    Seq::empty().push(KeyAction::PressReturn).push(KeyAction::Wait(SUBMIT_DELAY_MS)).push(
        KeyAction::ReleaseReturn,
    ).push(KeyAction::Wait(SUBMIT_DELAY_MS)).push(KeyAction::PressReturn).push(
        KeyAction::Wait(SUBMIT_DELAY_MS),
    ).push(KeyAction::ReleaseReturn).push(KeyAction::Wait(delay_ms))
}

/// Pushing the steps of a character one by one appends them.
proof fn lemma_push_char_steps(before: Seq<KeyAction>, c: char)
    ensures
        before.push(KeyAction::Press(c)).push(KeyAction::Wait(KEY_DELAY_MS)).push(
            KeyAction::Release(c),
        ).push(KeyAction::Wait(KEY_DELAY_MS)) == before + char_steps(c),
{
    assert(before.push(KeyAction::Press(c)).push(KeyAction::Wait(KEY_DELAY_MS)).push(
        KeyAction::Release(c),
    ).push(KeyAction::Wait(KEY_DELAY_MS)) =~= before + char_steps(c));
}

/// Pushing the submit steps one by one appends them.
proof fn lemma_push_submit_steps(before: Seq<KeyAction>, delay_ms: u64)
    ensures
        before.push(KeyAction::PressReturn).push(KeyAction::Wait(SUBMIT_DELAY_MS)).push(
            KeyAction::ReleaseReturn,
        ).push(KeyAction::Wait(SUBMIT_DELAY_MS)).push(KeyAction::PressReturn).push(
            KeyAction::Wait(SUBMIT_DELAY_MS),
        ).push(KeyAction::ReleaseReturn).push(KeyAction::Wait(delay_ms)) == before + submit_steps(
            delay_ms,
        ),
{
    assert(before.push(KeyAction::PressReturn).push(KeyAction::Wait(SUBMIT_DELAY_MS)).push(
        KeyAction::ReleaseReturn,
    ).push(KeyAction::Wait(SUBMIT_DELAY_MS)).push(KeyAction::PressReturn).push(
        KeyAction::Wait(SUBMIT_DELAY_MS),
    ).push(KeyAction::ReleaseReturn).push(KeyAction::Wait(delay_ms)) =~= before + submit_steps(
        delay_ms,
    ));
}

/// The steps that type `word` and submit it, then wait `delay_ms`.
pub fn word_key_actions(word: &String, delay_ms: u64) -> (r: Vec<KeyAction>)
    ensures
        r@ == chars_steps(word@) + submit_steps(delay_ms),
{
    let mut r: Vec<KeyAction> = Vec::new();
    for c in it: word.as_str().chars()
        invariant
            it.seq() == word@,
            r@ == chars_steps(it.seq().take(it.index() as int)),
    {
        proof {
            let next = it.seq().take(it.index() + 1);
            assert(next.drop_last() =~= it.seq().take(it.index() as int));
            assert(next.last() == c);
        }
        let ghost before = r@;
        r.push(KeyAction::Press(c));
        r.push(KeyAction::Wait(KEY_DELAY_MS));
        r.push(KeyAction::Release(c));
        r.push(KeyAction::Wait(KEY_DELAY_MS));
        proof {
            lemma_push_char_steps(before, c);
        }
    }
    proof {
        assert(word@.take(word@.len() as int) =~= word@);
    }
    let ghost typed = r@;
    r.push(KeyAction::PressReturn);
    r.push(KeyAction::Wait(SUBMIT_DELAY_MS));
    r.push(KeyAction::ReleaseReturn);
    r.push(KeyAction::Wait(SUBMIT_DELAY_MS));
    r.push(KeyAction::PressReturn);
    r.push(KeyAction::Wait(SUBMIT_DELAY_MS));
    r.push(KeyAction::ReleaseReturn);
    r.push(KeyAction::Wait(delay_ms));
    proof {
        lemma_push_submit_steps(typed, delay_ms);
    }
    r
}

} // verus!
