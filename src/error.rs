use vstd::prelude::*;

verus! {

/// The errors of the registry and of the worker shutdown protocol.
#[derive(Debug, Clone)]
pub enum Error {
    /// `spawn` was asked for an id that is already registered.
    WorkerAlreadyExist(String),
    /// `stop` was asked for an id that is not registered.
    WorkerNotFound(String),
    /// The worker's thread could not be joined cleanly (it panicked).
    StopError { worker_id: String, error: String },
    /// The shutdown signal could not be delivered: the worker's receiver was gone.
    SendShutdownSignal(std::sync::mpsc::SendError<()>),
}

pub type Result<T> = core::result::Result<T, Error>;

/// The character of a decimal digit.
pub open spec fn digit_char(d: nat) -> char {
    if d == 0 { '0' }
    else if d == 1 { '1' }
    else if d == 2 { '2' }
    else if d == 3 { '3' }
    else if d == 4 { '4' }
    else if d == 5 { '5' }
    else if d == 6 { '6' }
    else if d == 7 { '7' }
    else if d == 8 { '8' }
    else { '9' }
}

/// The decimal text of a natural number, without sign or leading zeros.
pub open spec fn decimal(n: nat) -> Seq<char>
    decreases n,
{
    if n < 10 {
        seq![digit_char(n)]
    } else {
        decimal(n / 10) + seq![digit_char(n % 10)]
    }
}

impl Error {
    /// The error is `WorkerAlreadyExist` for the given id.
    pub open spec fn is_already_exist_for(self, id: u64) -> bool {
        match self {
            Error::WorkerAlreadyExist(s) => s@ == decimal(id as nat),
            _ => false,
        }
    }

    /// The error is `WorkerNotFound` for the given id.
    pub open spec fn is_not_found_for(self, id: u64) -> bool {
        match self {
            Error::WorkerNotFound(s) => s@ == decimal(id as nat),
            _ => false,
        }
    }

    /// The error is one that retiring the worker with the given id can give.
    pub open spec fn is_retirement_failure_for(self, id: u64) -> bool {
        match self {
            Error::StopError { worker_id, error: _ } => worker_id@ == decimal(id as nat),
            Error::SendShutdownSignal(_) => true,
            _ => false,
        }
    }
}

/// The errors among `outcomes`, in order.
pub open spec fn errors_in(outcomes: Seq<Result<()>>) -> Seq<Error>
    decreases outcomes.len(),
{
    if outcomes.len() == 0 {
        Seq::empty()
    } else {
        let rest = errors_in(outcomes.drop_last());
        match outcomes.last() {
            Ok(()) => rest,
            Err(e) => rest.push(e),
        }
    }
}

/// The errors among `outcomes`, in the order they come; none is dropped.
pub fn failures_of(outcomes: Vec<Result<()>>) -> (f: Vec<Error>)
    ensures
        f@ == errors_in(outcomes@),
{
    let ghost all = outcomes@;
    let mut f: Vec<Error> = Vec::new();
    for r in it: outcomes.into_iter()
        invariant
            it.seq() == all,
            f@ == errors_in(all.take(it.index())),
    {
        proof {
            assert(all.take(it.index() + 1).drop_last() == all.take(it.index()));
            assert(all.take(it.index() + 1).last() == r);
        }
        match r {
            Ok(()) => {},
            Err(e) => f.push(e),
        }
    }
    assert(all.take(all.len() as int) == all);
    f
}

/// Relies on the `Debug` formatting of `u64`, which writes the number in decimal.
#[verifier::external_body]
pub(crate) fn id_text(id: u64) -> (r: String)
    ensures
        r@ == decimal(id as nat),
{
    format!("{:?}", id)
}

} // verus!
