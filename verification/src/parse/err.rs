//! The markers that parsers report when they do not succeed.
use vstd::prelude::*;
use vstd::std_specs::convert::FromSpecImpl;

verus! {

/// The usual recoverable error: the input does not match.
#[derive(Clone, Copy, Debug, Default, PartialEq, Eq, PartialOrd, Ord, Hash)]
pub struct NotFound;

/// The usual failure of a streaming parser that needs more input.
#[derive(Clone, Copy, Debug, Default, PartialEq, Eq, PartialOrd, Ord, Hash)]
pub struct Incomplete;

/// The failure of a parser that never fails. No value of this type exists in a running
/// program, so a conversion from it is never reached.
#[derive(Clone, Copy, Debug, PartialEq, Eq, PartialOrd, Ord, Hash)]
pub struct Never {
    sealed: (),
}

impl Never {
    #[verifier::type_invariant]
    spec fn uninhabited(self) -> bool {
        false
    }
}

impl From<Never> for NotFound {
    fn from(value: Never) -> (r: Self) {
        proof {
            use_type_invariant(&value);
        }
        NotFound
    }
}

impl FromSpecImpl<Never> for NotFound {
    open spec fn obeys_from_spec() -> bool {
        true
    }

    open spec fn from_spec(value: Never) -> Self {
        NotFound
    }
}

impl From<Incomplete> for NotFound {
    fn from(value: Incomplete) -> (r: Self) {
        NotFound
    }
}

impl FromSpecImpl<Incomplete> for NotFound {
    open spec fn obeys_from_spec() -> bool {
        true
    }

    open spec fn from_spec(value: Incomplete) -> Self {
        NotFound
    }
}

impl From<Never> for Incomplete {
    fn from(value: Never) -> (r: Self) {
        proof {
            use_type_invariant(&value);
        }
        Incomplete
    }
}

impl FromSpecImpl<Never> for Incomplete {
    open spec fn obeys_from_spec() -> bool {
        true
    }

    open spec fn from_spec(value: Never) -> Self {
        Incomplete
    }
}

impl From<NotFound> for Incomplete {
    fn from(value: NotFound) -> (r: Self) {
        Incomplete
    }
}

impl FromSpecImpl<NotFound> for Incomplete {
    open spec fn obeys_from_spec() -> bool {
        true
    }

    open spec fn from_spec(value: NotFound) -> Self {
        Incomplete
    }
}

} // verus!
