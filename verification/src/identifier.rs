//! The identifier state machine: a unique token acquires, or fails to
//! acquire, an alliterative label through at most one word-resolver call
//! per resolution step.

use vstd::prelude::*;
use vstd::string::{StrSliceExecFns, StringExecFns};
use crate::words::{FetchOutcome, ResolutionError, resolution_of, resolve};

verus! {

/// A unique identifier: a 128-bit token, decorated with an alliterative
/// "adjective noun" label once a resolution attempt has succeeded, or with
/// the failure reason of the latest attempt.
pub enum Identifier {
    /// Token assigned, no name attempted yet.
    Pending { token: u128 },
    /// Terminal success: the label is kept unchanged forever.
    Named { token: u128, label: String },
    /// Terminal but retryable failure.
    Failed { token: u128, reason: ResolutionError },
}

/// The token, present in every state.
pub open spec fn token_of(id: Identifier) -> u128 {
    match id {
        Identifier::Pending { token } => token,
        Identifier::Named { token, .. } => token,
        Identifier::Failed { token, .. } => token,
    }
}

/// The label, present exactly in the named state.
pub open spec fn label_of(id: Identifier) -> Option<Seq<char>> {
    match id {
        Identifier::Named { label, .. } => Some(label@),
        _ => None,
    }
}

/// The failure reason, present exactly in the failed state.
pub open spec fn reason_of(id: Identifier) -> Option<ResolutionError> {
    match id {
        Identifier::Failed { reason, .. } => Some(reason),
        _ => None,
    }
}

/// Whether the identifier has reached a terminal state.
pub open spec fn is_terminal(id: Identifier) -> bool {
    id is Named || id is Failed
}

/// Relies on uuid::Uuid::new_v4: a freshly generated random version-4
/// UUID, taken as its 128-bit value. The version field of a version-4 UUID
/// is non-zero, so the value is never nil.
#[verifier::external_body]
fn fresh_token() -> (t: u128)
    ensures
        t != 0,
{
    uuid::Uuid::new_v4().as_u128()
}

/// The label composed out of an adjective and a noun.
pub open spec fn composed(adjective: Seq<char>, noun: Seq<char>) -> Seq<char> {
    adjective + " "@ + noun
}

/// Whether `post` records the resolver result `r` over the token of `pre`:
/// the named state with the composed label on success, the failed state
/// with the reason on failure.
pub open spec fn applied(
    pre: Identifier,
    r: Result<(Seq<char>, Seq<char>), ResolutionError>,
    post: Identifier,
) -> bool {
    &&& token_of(post) == token_of(pre)
    &&& match r {
        Ok(pair) => post is Named && label_of(post) == Some(composed(pair.0, pair.1)),
        Err(reason) => post is Failed && reason_of(post) == Some(reason),
    }
}

/// One resolution step: a named identifier is left untouched; any other
/// records the outcome of one word-resolver call on the query letter and
/// the fetch outcome, keeping its token.
pub open spec fn set_post(
    pre: Identifier,
    letter: char,
    outcome: FetchOutcome,
    post: Identifier,
) -> bool {
    if pre is Named {
        post == pre
    } else {
        exists|r: Result<(Seq<char>, Seq<char>), ResolutionError>|
            #[trigger] resolution_of(letter, outcome, r) && applied(pre, r, post)
    }
}

/// Any finite run of resolution steps from `pre` to `post`, each step
/// described by its query letter and fetch outcome.
pub open spec fn runs_to(pre: Identifier, steps: Seq<(char, FetchOutcome)>, post: Identifier) -> bool
    decreases steps.len(),
{
    if steps.len() == 0 {
        post == pre
    } else {
        exists|mid: Identifier|
            #[trigger] set_post(pre, steps[0].0, steps[0].1, mid) && runs_to(
                mid,
                steps.drop_first(),
                post,
            )
    }
}

impl Identifier {
    /// Creates a fresh identifier: a new unique token, resolution pending.
    /// No side effects beyond drawing the token; no network access.
    pub fn new() -> (r: Self)
        ensures
            r is Pending,
            token_of(r) != 0,
    {
        Identifier::Pending { token: fresh_token() }
    }

    /// One resolution step, from the query letter drawn for it and the
    /// outcome of the outbound query made for it. A named identifier is
    /// left untouched; any other moves to the named state when both word
    /// pools are populated and to the failed state otherwise, always
    /// keeping its token. Returns a snapshot of the resulting identifier.
    pub fn set(&mut self, letter: char, outcome: &FetchOutcome) -> (r: Self)
        ensures
            set_post(*old(self), letter, *outcome, *final(self)),
            r == *final(self),
    {
        let token = match self {
            Identifier::Pending { token } => *token,
            Identifier::Named { token, .. } => *token,
            Identifier::Failed { token, .. } => *token,
        };
        if let Identifier::Named { .. } = self {
            return self.clone();
        }
        let next = match resolve(letter, outcome) {
            Ok((adjective, noun)) => {
                let label = adjective.concat(" ").concat(noun.as_str());
                Identifier::Named { token, label }
            },
            Err(reason) => Identifier::Failed { token, reason },
        };
        *self = next;
        self.clone()
    }
}

/// Draws a fresh uniformly random lowercase letter, independently for
/// each resolution attempt.
pub fn pick_letter() -> (c: char)
    ensures
        'a' <= c && c <= 'z',
{
    let i = crate::words::random_index(26);
    let b = 97 + i as u8;
    b as char
}

impl Clone for Identifier {
    /// A snapshot equal to the identifier.
    fn clone(&self) -> (r: Self)
        ensures
            r == *self,
    {
        match self {
            Identifier::Pending { token } => Identifier::Pending { token: *token },
            Identifier::Named { token, label } => Identifier::Named {
                token: *token,
                label: label.clone(),
            },
            Identifier::Failed { token, reason } => Identifier::Failed {
                token: *token,
                reason: *reason,
            },
        }
    }
}

/// The lowercase hexadecimal digit for a value below sixteen.
pub open spec fn hex_char(d: int) -> char {
    if d == 0 { '0' } else if d == 1 { '1' } else if d == 2 { '2' } else if d == 3 { '3' }
    else if d == 4 { '4' } else if d == 5 { '5' } else if d == 6 { '6' } else if d == 7 { '7' }
    else if d == 8 { '8' } else if d == 9 { '9' } else if d == 10 { 'a' } else if d == 11 { 'b' }
    else if d == 12 { 'c' } else if d == 13 { 'd' } else if d == 14 { 'e' } else { 'f' }
}

/// The lowest `n` hexadecimal digits of `v`, most significant first.
pub open spec fn hex_seq(v: int, n: nat) -> Seq<char>
    decreases n,
{
    if n == 0 {
        Seq::empty()
    } else {
        hex_seq(v / 16, (n - 1) as nat).push(hex_char(v % 16))
    }
}

/// A hexadecimal digit sequence has exactly the requested length.
pub proof fn lemma_hex_seq_len(v: int, n: nat)
    ensures
        hex_seq(v, n).len() == n,
    decreases n,
{
    if n > 0 {
        lemma_hex_seq_len(v / 16, (n - 1) as nat);
    }
}

/// The hyphenated text of a token: its 32 hexadecimal digits in groups of
/// 8, 4, 4, 4 and 12, the standard form for a 128-bit unique value.
pub open spec fn token_text(token: u128) -> Seq<char> {
    let d = hex_seq(token as int, 32);
    d.subrange(0, 8) + "-"@ + d.subrange(8, 12) + "-"@ + d.subrange(12, 16) + "-"@ + d.subrange(
        16,
        20,
    ) + "-"@ + d.subrange(20, 32)
}

/// The one-character string holding the hexadecimal digit for `d`.
fn hex_digit_str(d: u128) -> (r: &'static str)
    requires
        d < 16,
    ensures
        r@ == seq![hex_char(d as int)],
{
    proof {
        reveal_strlit("0");
        reveal_strlit("1");
        reveal_strlit("2");
        reveal_strlit("3");
        reveal_strlit("4");
        reveal_strlit("5");
        reveal_strlit("6");
        reveal_strlit("7");
        reveal_strlit("8");
        reveal_strlit("9");
        reveal_strlit("a");
        reveal_strlit("b");
        reveal_strlit("c");
        reveal_strlit("d");
        reveal_strlit("e");
        reveal_strlit("f");
    }
    let r: &'static str = match d {
        0 => "0",
        1 => "1",
        2 => "2",
        3 => "3",
        4 => "4",
        5 => "5",
        6 => "6",
        7 => "7",
        8 => "8",
        9 => "9",
        10 => "a",
        11 => "b",
        12 => "c",
        13 => "d",
        14 => "e",
        _ => "f",
    };
    proof {
        assert(r@ =~= seq![hex_char(d as int)]);
    }
    r
}

/// The lowest `n` hexadecimal digits of `v`, most significant first.
fn hex_string(v: u128, n: usize) -> (s: String)
    ensures
        s@ == hex_seq(v as int, n as nat),
    decreases n,
{
    if n == 0 {
        String::new()
    } else {
        let mut s = hex_string(v / 16, n - 1);
        s.append(hex_digit_str(v % 16));
        proof {
            assert(s@ =~= hex_seq(v as int, n as nat));
        }
        s
    }
}

/// Formats a token in its hyphenated text form.
fn format_token(token: u128) -> (r: String)
    ensures
        r@ == token_text(token),
{
    let digits = hex_string(token, 32);
    proof {
        lemma_hex_seq_len(token as int, 32);
    }
    let mut s = digits.as_str().substring_char(0, 8).to_owned();
    s.append("-");
    s.append(digits.as_str().substring_char(8, 12));
    s.append("-");
    s.append(digits.as_str().substring_char(12, 16));
    s.append("-");
    s.append(digits.as_str().substring_char(16, 20));
    s.append("-");
    s.append(digits.as_str().substring_char(20, 32));
    s
}

/// The diagnostic string recorded for a failure reason.
pub open spec fn reason_text(reason: ResolutionError) -> Seq<char> {
    match reason {
        ResolutionError::NetworkError => "Error making API request."@,
        ResolutionError::ParseError => "Error parsing API response."@,
        ResolutionError::NoEligibleWords => "Error fetching word."@,
    }
}

/// The display form of an identifier: the token text alone while pending;
/// the label, then the token text in parentheses, once named; the token
/// text and the diagnostic, clearly marked as an error, once failed.
pub open spec fn render_of(id: Identifier) -> Seq<char> {
    match id {
        Identifier::Pending { token } => token_text(token),
        Identifier::Named { token, label } => label@ + "\t("@ + token_text(token) + ")"@,
        Identifier::Failed { token, reason } => token_text(token) + "\tError fetching name:\t"@
            + reason_text(reason),
    }
}

/// The diagnostic string for a failure reason.
pub fn reason_message(reason: ResolutionError) -> (r: &'static str)
    ensures
        r@ == reason_text(reason),
{
    match reason {
        ResolutionError::NetworkError => "Error making API request.",
        ResolutionError::ParseError => "Error parsing API response.",
        ResolutionError::NoEligibleWords => "Error fetching word.",
    }
}

impl Identifier {
    /// Produces the display form of the identifier.
    pub fn render(&self) -> (r: String)
        ensures
            r@ == render_of(*self),
    {
        match self {
            Identifier::Pending { token } => format_token(*token),
            Identifier::Named { token, label } => {
                let mut s = label.clone();
                s.append("\t(");
                let t = format_token(*token);
                s.append(t.as_str());
                s.append(")");
                s
            },
            Identifier::Failed { token, reason } => {
                let mut s = format_token(*token);
                s.append("\tError fetching name:\t");
                s.append(reason_message(*reason));
                s
            },
        }
    }
}

/// Exactly one of label and failure reason is populated whenever the state
/// is terminal; neither is populated while the resolution is pending.
pub proof fn lemma_terminal_exclusive(id: Identifier)
    ensures
        is_terminal(id) ==> (label_of(id) is Some) != (reason_of(id) is Some),
        !is_terminal(id) ==> label_of(id) is None && reason_of(id) is None,
{
}

/// One resolution step never changes the token.
pub proof fn lemma_token_stable_step(
    pre: Identifier,
    letter: char,
    outcome: FetchOutcome,
    post: Identifier,
)
    requires
        set_post(pre, letter, outcome, post),
    ensures
        token_of(post) == token_of(pre),
{
    if pre !is Named {
        let r = choose|r: Result<(Seq<char>, Seq<char>), ResolutionError>|
            #[trigger] resolution_of(letter, outcome, r) && applied(pre, r, post);
        assert(applied(pre, r, post));
    }
}

/// The token is stable across any number of resolution steps.
pub proof fn lemma_token_stable(pre: Identifier, steps: Seq<(char, FetchOutcome)>, post: Identifier)
    requires
        runs_to(pre, steps, post),
    ensures
        token_of(post) == token_of(pre),
    decreases steps.len(),
{
    if steps.len() > 0 {
        let mid = choose|mid: Identifier|
            #[trigger] set_post(pre, steps[0].0, steps[0].1, mid) && runs_to(
                mid,
                steps.drop_first(),
                post,
            );
        lemma_token_stable_step(pre, steps[0].0, steps[0].1, mid);
        lemma_token_stable(mid, steps.drop_first(), post);
    }
}

/// An identifier whose token is not nil keeps a non-nil token through any
/// number of resolution steps; `new` assigns such a token.
pub proof fn lemma_token_never_nil(
    pre: Identifier,
    steps: Seq<(char, FetchOutcome)>,
    post: Identifier,
)
    requires
        token_of(pre) != 0,
        runs_to(pre, steps, post),
    ensures
        token_of(post) != 0,
{
    lemma_token_stable(pre, steps, post);
}

/// Resolution is idempotent once a name has been secured: any number of
/// further resolution steps leaves a named identifier, and in particular
/// its label, unchanged.
pub proof fn lemma_named_stable(pre: Identifier, steps: Seq<(char, FetchOutcome)>, post: Identifier)
    requires
        runs_to(pre, steps, post),
        pre is Named,
    ensures
        post == pre,
    decreases steps.len(),
{
    if steps.len() > 0 {
        let mid = choose|mid: Identifier|
            #[trigger] set_post(pre, steps[0].0, steps[0].1, mid) && runs_to(
                mid,
                steps.drop_first(),
                post,
            );
        lemma_named_stable(mid, steps.drop_first(), post);
    }
}

} // verus!
