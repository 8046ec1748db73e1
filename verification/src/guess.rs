use vstd::prelude::*;

verus! {

/// A bounds-validated integer: the held value always lies in the closed
/// range from 1 to 100.
#[derive(Debug)]
pub struct Guess {
    value: i32,
}

/// Why a candidate value was rejected by the validating constructor.
#[derive(Clone, Copy, Debug, PartialEq, Eq, Structural)]
pub enum GuessError {
    /// The candidate was below 1.
    TooSmall,
    /// The candidate was above 100.
    TooLarge,
}

impl GuessError {
    /// The diagnostic text for this rejection.
    pub open spec fn spec_message(&self) -> Seq<char> {
        match self {
            GuessError::TooSmall => "Guess value must be greater than or equal to 1."@,
            GuessError::TooLarge => "Guess value must be less than or equal to 100."@,
        }
    }

    /// Renders the diagnostic text.
    pub fn message(&self) -> (m: String)
        ensures
            m@ == self.spec_message(),
    {
        match self {
            GuessError::TooSmall => "Guess value must be greater than or equal to 1.".to_owned(),
            GuessError::TooLarge => "Guess value must be less than or equal to 100.".to_owned(),
        }
    }
}

/// Whether `needle` occurs contiguously inside `hay`.
pub open spec fn seq_contains_sub(hay: Seq<char>, needle: Seq<char>) -> bool {
    exists|k: int|
        0 <= k && k + needle.len() <= hay.len() && #[trigger] hay.subrange(k, k + needle.len())
            == needle
}

/// Law: a value below 1 is rejected with a diagnostic containing
/// "greater than or equal to 1", and a value above 100 with one containing
/// "less than or equal to 100". Together with the contract of
/// [`Guess::try_new`], which says which rejection each out-of-range value
/// draws, this pins the diagnostic for every rejected value.
pub proof fn lemma_rejection_message_names_bound(value: i32)
    requires
        value < 1 || value > 100,
    ensures
        value < 1 ==> seq_contains_sub(
            GuessError::TooSmall.spec_message(),
            "greater than or equal to 1"@,
        ),
        value > 100 ==> seq_contains_sub(
            GuessError::TooLarge.spec_message(),
            "less than or equal to 100"@,
        ),
{
    reveal_strlit("Guess value must be greater than or equal to 1.");
    reveal_strlit("greater than or equal to 1");
    reveal_strlit("Guess value must be less than or equal to 100.");
    reveal_strlit("less than or equal to 100");
    let small_hay = GuessError::TooSmall.spec_message();
    let small_needle = "greater than or equal to 1"@;
    assert(small_hay.subrange(20, 20 + small_needle.len() as int) =~= small_needle);
    let large_hay = GuessError::TooLarge.spec_message();
    let large_needle = "less than or equal to 100"@;
    assert(large_hay.subrange(20, 20 + large_needle.len() as int) =~= large_needle);
}

impl Guess {
    /// The value held inside.
    pub closed spec fn spec_value(&self) -> int {
        self.value as int
    }

    /// The range invariant: the held value lies in [1, 100].
    pub open spec fn wf(&self) -> bool {
        1 <= self.spec_value() <= 100
    }

    /// Constructs a guess from a value already known to be in range.
    pub fn new(value: i32) -> (g: Guess)
        requires
            1 <= value <= 100,
        ensures
            g.spec_value() == value,
            g.wf(),
    {
        Guess { value }
    }

    /// Validating constructor: accepts exactly the values in [1, 100] and
    /// reports which bound an out-of-range value broke.
    pub fn try_new(value: i32) -> (r: Result<Guess, GuessError>)
        ensures
            r is Ok <==> 1 <= value <= 100,
            r matches Ok(g) ==> g.spec_value() == value && g.wf(),
            value < 1 ==> (r matches Err(e) && e == GuessError::TooSmall),
            value > 100 ==> (r matches Err(e) && e == GuessError::TooLarge),
    {
        if value < 1 {
            Err(GuessError::TooSmall)
        } else if value > 100 {
            Err(GuessError::TooLarge)
        } else {
            Ok(Guess::new(value))
        }
    }

    /// Read accessor for the held value.
    pub fn value(&self) -> (v: i32)
        ensures
            v == self.spec_value(),
    {
        self.value
    }
}

} // verus!
