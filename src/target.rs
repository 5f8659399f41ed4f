//! The call's target path, `/<service>/<method>`, and the labels read from it.

use vstd::prelude::*;

verus! {

/// The index of the last `/` in `p`, or -1 where `p` holds none.
pub open spec fn last_separator(p: Seq<char>) -> int
    decreases p.len(),
{
    if p.len() == 0 {
        -1
    } else if p.last() == '/' {
        p.len() - 1
    } else {
        last_separator(p.drop_last())
    }
}

/// The (service, method) labels of a target path: what stands before and
/// after its last `/`; `None` where the path holds no `/`.
pub open spec fn target_labels(p: Seq<char>) -> Option<(Seq<char>, Seq<char>)> {
    let k = last_separator(p);
    if k < 0 {
        None
    } else {
        Some((p.subrange(0, k), p.subrange(k + 1, p.len() as int)))
    }
}

/// What `last_separator` gives: -1 exactly where no `/` occurs, else the
/// position of a `/` with none after it.
pub proof fn lemma_last_separator(p: Seq<char>)
    ensures
        -1 <= last_separator(p) < p.len(),
        last_separator(p) == -1 <==> forall|i: int| 0 <= i < p.len() ==> p[i] != '/',
        last_separator(p) >= 0 ==> p[last_separator(p)] == '/',
        forall|i: int| last_separator(p) < i < p.len() ==> #[trigger] p[i] != '/',
    decreases p.len(),
{
    if p.len() > 0 && p.last() != '/' {
        lemma_last_separator(p.drop_last());
        assert forall|i: int| 0 <= i < p.len() - 1 implies p[i] == p.drop_last()[i] by {}
    }
}

/// Why a target path yields no labels.
#[derive(Clone, Copy, Debug, PartialEq, Eq, Structural)]
pub enum TargetError {
    /// The path holds no `/`, so no method name can be read from it.
    MissingSeparator,
}

/// Splits a target path at its last `/` into (service, method); a path with
/// no `/` is refused.
pub fn split_target(path: &str) -> (r: Result<(String, String), TargetError>)
    ensures
        match r {
            Ok((service, method)) => {
                &&& target_labels(path@) == Some((service@, method@))
                &&& path@ == service@ + seq!['/'] + method@
                &&& forall|i: int| 0 <= i < method@.len() ==> method@[i] != '/'
            },
            Err(e) => {
                &&& target_labels(path@) is None
                &&& forall|i: int| 0 <= i < path@.len() ==> path@[i] != '/'
                &&& e == TargetError::MissingSeparator
            },
        },
{
    proof {
        lemma_last_separator(path@);
    }
    let len = path.unicode_len();
    let mut k: usize = len;
    assert(path@.subrange(0, len as int) =~= path@);
    while k > 0
        invariant
            len == path@.len(),
            k <= len,
            last_separator(path@) == last_separator(path@.subrange(0, k as int)),
        decreases k,
    {
        let c = path.get_char(k - 1);
        assert(path@.subrange(0, k - 1) =~= path@.subrange(0, k as int).drop_last());
        if c == '/' {
            let service = path.substring_char(0, k - 1).to_owned();
            let method = path.substring_char(k, len).to_owned();
            assert(path@ =~= service@ + seq!['/'] + method@);
            assert(path@.subrange(0, k as int).last() == '/');
            assert(last_separator(path@) == k - 1);
            proof {
                lemma_last_separator(path@);
            }
            assert forall|i: int| 0 <= i < method@.len() implies method@[i] != '/' by {
                assert(method@[i] == path@[k + i]);
            }
            return Ok((service, method));
        }
        k = k - 1;
    }
    assert(path@.subrange(0, 0) =~= Seq::<char>::empty());
    Err(TargetError::MissingSeparator)
}

} // verus!
