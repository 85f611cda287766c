use vstd::prelude::*;

verus! {

/// The view to rebuild after the repository is read again.
#[derive(Debug, Clone, Copy, PartialEq, Eq, Structural)]
pub enum RefreshViewContext {
    List,
    Detail,
    UserCommand { n: usize },
    Refs,
}

} // verus!
