use vstd::prelude::*;

verus! {

/// Draws an identity from `rand::thread_rng()` with `Rng::gen`. The value
/// depends on chance, so nothing is claimed of it.
#[verifier::external_body]
pub(crate) fn random_id() -> (id: usize) {
    rand::Rng::gen(&mut rand::thread_rng())
}

/// Reads `SystemTime::now()` and gives the whole seconds since the Unix epoch,
/// or `None` where the system clock stands before the epoch. The value
/// depends on the time of the call, so nothing is claimed of it.
#[verifier::external_body]
pub(crate) fn unix_seconds() -> (seconds: Option<u64>) {
    match std::time::SystemTime::now().duration_since(std::time::UNIX_EPOCH) {
        Ok(elapsed) => Some(elapsed.as_secs()),
        Err(_) => None,
    }
}

/// The reading of the clock that a reading of the system clock stands for: a
/// system clock that stands before the epoch reads 0.
pub open spec fn reading_spec(seconds: Option<u64>) -> u64 {
    match seconds {
        Some(s) => s,
        None => 0,
    }
}

/// The reading of the clock for a reading of the system clock.
pub fn reading_of(seconds: Option<u64>) -> (reading: u64)
    ensures
        reading == reading_spec(seconds),
{
    match seconds {
        Some(s) => s,
        None => 0,
    }
}

/// The built-in `clock` callable: no parameters, and an identity by which two
/// clocks are told apart.
#[derive(Clone, Copy, Debug, PartialEq, Eq, Hash, Structural)]
pub struct Clock {
    pub arity: usize,
    pub id: usize,
}

impl Clock {
    /// A clock with the given identity.
    pub fn with_id(id: usize) -> (clock: Clock)
        ensures
            clock == (Clock { arity: 0, id }),
    {
        Clock { arity: 0, id }
    }

    /// A clock with an identity drawn at random.
    pub fn new() -> (clock: Clock)
        ensures
            clock.arity == 0,
    {
        Clock::with_id(random_id())
    }

    /// The number of arguments a call takes: none.
    pub fn arity(&self) -> (n: usize)
        ensures
            n == 0,
    {
        0
    }

    /// The identity given at construction.
    pub fn id(&self) -> (id: usize)
        ensures
            id == self.id,
    {
        self.id
    }

    /// The display form of the built-in.
    pub fn to_str(&self) -> (text: String)
        ensures
            text@ == "<native fn>"@,
    {
        "<native fn>".to_string()
    }
}

impl Default for Clock {
    /// A clock with an identity drawn at random.
    fn default() -> (clock: Clock)
        ensures
            clock.arity == 0,
    {
        Self::new()
    }
}

} // verus!
