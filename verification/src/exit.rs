//! Exit codes and the ordered per-item results of batch operations.

use vstd::prelude::*;

verus! {

/// Outcome class of an operation or of one item of a batch.
#[derive(Clone, Copy, Debug, PartialEq, Eq, Structural)]
pub enum ExitCode {
    /// Success.
    Success,
    /// The request is malformed or inconsistent with itself.
    IllegalArgument,
    /// The referenced entry does not exist for the named owner.
    NotFound,
    /// The caller may not do this, or may not do it yet.
    Forbidden,
    /// The balance does not cover the operation.
    InsufficientFunds,
    /// The stored state is inconsistent.
    IllegalState,
    /// A failure of no named kind.
    Unspecified,
}

impl ExitCode {
    /// The number that stands for this code on the wire.
    pub open spec fn spec_value(self) -> u32 {
        match self {
            ExitCode::Success => 0,
            ExitCode::IllegalArgument => 16,
            ExitCode::NotFound => 17,
            ExitCode::Forbidden => 18,
            ExitCode::InsufficientFunds => 19,
            ExitCode::IllegalState => 20,
            ExitCode::Unspecified => 23,
        }
    }

    /// The number that stands for this code on the wire.
    pub fn value(&self) -> (r: u32)
        ensures
            r == self.spec_value(),
    {
        match self {
            ExitCode::Success => 0,
            ExitCode::IllegalArgument => 16,
            ExitCode::NotFound => 17,
            ExitCode::Forbidden => 18,
            ExitCode::InsufficientFunds => 19,
            ExitCode::IllegalState => 20,
            ExitCode::Unspecified => 23,
        }
    }

    /// The code that `value` stands for, if it is one of the codes above.
    pub fn from_value(value: u32) -> (r: Option<ExitCode>)
        ensures
            match r {
                Some(c) => c.spec_value() == value,
                None => forall|c: ExitCode| c.spec_value() != value,
            },
    {
        if value == 0 {
            Some(ExitCode::Success)
        } else if value == 16 {
            Some(ExitCode::IllegalArgument)
        } else if value == 17 {
            Some(ExitCode::NotFound)
        } else if value == 18 {
            Some(ExitCode::Forbidden)
        } else if value == 19 {
            Some(ExitCode::InsufficientFunds)
        } else if value == 20 {
            Some(ExitCode::IllegalState)
        } else if value == 23 {
            Some(ExitCode::Unspecified)
        } else {
            None
        }
    }

    /// Whether this is the success code.
    pub fn is_success(&self) -> (r: bool)
        ensures
            r == (*self == ExitCode::Success),
    {
        match self {
            ExitCode::Success => true,
            _ => false,
        }
    }
}

/// The failure of a whole operation: nothing it did persists.
#[derive(Clone, Copy, Debug, PartialEq, Eq, Structural)]
pub struct ActorError {
    pub exit_code: ExitCode,
}

/// Number of success codes in `codes`.
pub open spec fn count_ok(codes: Seq<ExitCode>) -> nat
    decreases codes.len(),
{
    if codes.len() == 0 {
        0
    } else {
        count_ok(codes.drop_last()) + if codes.last() == ExitCode::Success {
            1nat
        } else {
            0nat
        }
    }
}

/// One failed item of a batch: its position and its code.
#[derive(Clone, Copy, Debug, PartialEq, Eq, Structural)]
pub struct FailCode {
    pub idx: usize,
    pub code: ExitCode,
}

/// The failed items among the first `n` of `codes`, in order.
pub open spec fn fails_in(codes: Seq<ExitCode>, n: int) -> Seq<FailCode>
    decreases n,
{
    if n <= 0 {
        Seq::empty()
    } else if codes[n - 1] == ExitCode::Success {
        fails_in(codes, n - 1)
    } else {
        fails_in(codes, n - 1).push(FailCode { idx: (n - 1) as usize, code: codes[n - 1] })
    }
}

/// The result of a batch operation: one exit code per requested item, in the
/// order of the request.
#[derive(Debug, PartialEq, Eq)]
pub struct BatchReturn {
    codes: Vec<ExitCode>,
}

impl View for BatchReturn {
    type V = Seq<ExitCode>;

    closed spec fn view(&self) -> Seq<ExitCode> {
        self.codes@
    }
}

/// The failure of a batch as a whole: nothing it did persists. The codes of
/// the items are there all the same, one for each item.
#[derive(Debug, PartialEq, Eq)]
pub struct BatchAborted {
    pub exit_code: ExitCode,
    pub results: BatchReturn,
}

impl BatchReturn {
    /// The result of a batch with no items.
    pub fn empty() -> (r: Self)
        ensures
            r@ == Seq::<ExitCode>::empty(),
    {
        BatchReturn { codes: Vec::new() }
    }

    /// The result of a batch of `n` items that all succeeded.
    pub fn ok(n: usize) -> (r: Self)
        ensures
            r@ == Seq::new(n as nat, |i: int| ExitCode::Success),
    {
        let mut codes: Vec<ExitCode> = Vec::new();
        let mut i: usize = 0;
        while i < n
            invariant
                i <= n,
                codes@ == Seq::new(i as nat, |k: int| ExitCode::Success),
            decreases n - i,
        {
            codes.push(ExitCode::Success);
            i += 1;
            assert(codes@ =~= Seq::new(i as nat, |k: int| ExitCode::Success));
        }
        BatchReturn { codes }
    }

    /// The result that holds exactly `codes`.
    pub fn of(codes: &Vec<ExitCode>) -> (r: Self)
        ensures
            r@ == codes@,
    {
        let mut out: Vec<ExitCode> = Vec::new();
        let mut i: usize = 0;
        while i < codes.len()
            invariant
                i <= codes.len(),
                out@ == codes@.subrange(0, i as int),
            decreases codes.len() - i,
        {
            out.push(codes[i]);
            i += 1;
            assert(out@ =~= codes@.subrange(0, i as int));
        }
        assert(codes@.subrange(0, codes.len() as int) =~= codes@);
        BatchReturn { codes: out }
    }

    /// Adds the code of the next item.
    pub fn push(&mut self, code: ExitCode)
        ensures
            final(self)@ == old(self)@.push(code),
    {
        self.codes.push(code);
    }

    /// Number of items.
    pub fn size(&self) -> (r: usize)
        ensures
            r == self@.len(),
    {
        self.codes.len()
    }

    /// The code of item `i`.
    pub fn code_at(&self, i: usize) -> (r: ExitCode)
        requires
            i < self@.len(),
        ensures
            r == self@[i as int],
    {
        self.codes[i]
    }

    /// The codes of all items, in order.
    pub fn codes(&self) -> (r: Vec<ExitCode>)
        ensures
            r@ == self@,
    {
        let mut out: Vec<ExitCode> = Vec::new();
        let mut i: usize = 0;
        while i < self.codes.len()
            invariant
                i <= self.codes.len(),
                out@ == self.codes@.subrange(0, i as int),
            decreases self.codes.len() - i,
        {
            out.push(self.codes[i]);
            i += 1;
            assert(out@ =~= self.codes@.subrange(0, i as int));
        }
        assert(self.codes@.subrange(0, self.codes.len() as int) =~= self.codes@);
        out
    }

    /// Whether every item succeeded.
    pub fn all_ok(&self) -> (r: bool)
        ensures
            r == (forall|i: int| 0 <= i < self@.len() ==> self@[i] == ExitCode::Success),
    {
        let mut i: usize = 0;
        while i < self.codes.len()
            invariant
                i <= self.codes.len(),
                forall|k: int| 0 <= k < i ==> self.codes@[k] == ExitCode::Success,
            decreases self.codes.len() - i,
        {
            if !self.codes[i].is_success() {
                return false;
            }
            i += 1;
        }
        true
    }

    /// Number of items that succeeded.
    pub fn success_count(&self) -> (r: usize)
        ensures
            r == count_ok(self@),
    {
        let mut n: usize = 0;
        let mut i: usize = 0;
        while i < self.codes.len()
            invariant
                i <= self.codes.len(),
                n <= i,
                n == count_ok(self.codes@.subrange(0, i as int)),
            decreases self.codes.len() - i,
        {
            assert(self.codes@.subrange(0, i + 1).drop_last() =~= self.codes@.subrange(0, i as int));
            if self.codes[i].is_success() {
                n += 1;
            }
            i += 1;
        }
        assert(self.codes@.subrange(0, self.codes.len() as int) =~= self.codes@);
        n
    }

    /// The failed items with their positions, in order.
    pub fn fail_codes(&self) -> (r: Vec<FailCode>)
        ensures
            r@ == fails_in(self@, self@.len() as int),
    {
        let mut out: Vec<FailCode> = Vec::new();
        let mut i: usize = 0;
        while i < self.codes.len()
            invariant
                i <= self.codes.len(),
                out@ == fails_in(self.codes@, i as int),
            decreases self.codes.len() - i,
        {
            let c = self.codes[i];
            if !c.is_success() {
                out.push(FailCode { idx: i, code: c });
            }
            i += 1;
        }
        out
    }
}

} // verus!
