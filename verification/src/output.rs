//! The emitted container tree and its units.
//!
//! A unit is one independently runnable test or benchmark: a canonical
//! identifier, an execution kind, and a self-contained body.  For tests the
//! body already includes every composed hook; a benchmark body is the
//! written body unmodified.  Containers mirror the group nesting of the
//! document.

use vstd::prelude::*;
use crate::mangle::stmts_model;

verus! {

/// How a unit is to be executed.
#[derive(Debug)]
pub enum UnitKind {
    /// Run as an ordinary test.
    Test,
    /// Run as a test and require abnormal termination; with a pattern, the
    /// abnormal-termination message must contain it.
    ExpectFailure(Option<Vec<char>>),
    /// Keep the unit in the output but skip it by default.
    Skip,
    /// Run as a benchmark; carries the bencher binding exposed in the body.
    Benchmark(Vec<char>),
}

/// One emitted runnable unit.
#[derive(Debug)]
pub struct Unit {
    /// The canonical identifier, unique among its siblings.
    pub ident: Vec<char>,
    /// How the unit is to be executed.
    pub kind: UnitKind,
    /// The self-contained body.
    pub body: Vec<Vec<char>>,
}

/// One node of the emitted tree.
#[derive(Debug)]
pub enum OutputNode {
    Unit(Unit),
    Container(Container),
}

/// A named container holding the units of one group.
#[derive(Debug)]
pub struct Container {
    /// The canonical identifier of the group.
    pub ident: Vec<char>,
    /// The emitted nodes, one per child of the group, in document order.
    pub nodes: Vec<OutputNode>,
}

/// The mathematical shape of a unit kind.
pub ghost enum UnitKindModel {
    Test,
    ExpectFailure(Option<Seq<char>>),
    Skip,
    Benchmark(Seq<char>),
}

/// The mathematical shape of a unit.
pub ghost struct UnitModel {
    pub ident: Seq<char>,
    pub kind: UnitKindModel,
    pub body: Seq<Seq<char>>,
}

/// The mathematical shape of an output node.
pub ghost enum OutputNodeModel {
    Unit(UnitModel),
    Container(ContainerModel),
}

/// The mathematical shape of a container.
pub ghost struct ContainerModel {
    pub ident: Seq<char>,
    pub nodes: Seq<OutputNodeModel>,
}

/// The model of a unit kind.
pub open spec fn unit_kind_model(k: UnitKind) -> UnitKindModel {
    match k {
        UnitKind::Test => UnitKindModel::Test,
        UnitKind::ExpectFailure(p) => UnitKindModel::ExpectFailure(
            match p {
                Some(v) => Some(v@),
                None => None,
            },
        ),
        UnitKind::Skip => UnitKindModel::Skip,
        UnitKind::Benchmark(b) => UnitKindModel::Benchmark(b@),
    }
}

/// The model of a unit.
pub open spec fn unit_model(u: Unit) -> UnitModel {
    UnitModel { ident: u.ident@, kind: unit_kind_model(u.kind), body: stmts_model(u.body@) }
}

/// The model of a container.
pub open spec fn container_model(c: Container) -> ContainerModel
    decreases c, 0int,
{
    ContainerModel { ident: c.ident@, nodes: node_models(c.nodes@) }
}

/// The model of one output node.
pub open spec fn node_model(n: OutputNode) -> OutputNodeModel
    decreases n, 1int,
{
    match n {
        OutputNode::Unit(u) => OutputNodeModel::Unit(unit_model(u)),
        OutputNode::Container(c) => OutputNodeModel::Container(container_model(c)),
    }
}

/// The models of a sequence of output nodes, in order.
pub open spec fn node_models(s: Seq<OutputNode>) -> Seq<OutputNodeModel>
    decreases s, 2int,
{
    if s.len() == 0 {
        Seq::empty()
    } else {
        seq![node_model(s[0])] + node_models(s.subrange(1, s.len() as int))
    }
}

impl View for Container {
    type V = ContainerModel;

    open spec fn view(&self) -> ContainerModel {
        container_model(*self)
    }
}

/// The model of a node sequence is the sequence of the models.
pub proof fn lemma_node_models_index(s: Seq<OutputNode>)
    ensures
        node_models(s).len() == s.len(),
        forall|i: int| 0 <= i < s.len() ==> node_models(s)[i] == node_model(s[i]),
    decreases s.len(),
{
    if s.len() > 0 {
        lemma_node_models_index(s.subrange(1, s.len() as int));
        assert forall|i: int| 0 <= i < s.len() implies node_models(s)[i] == node_model(s[i]) by {
            if i > 0 {
                assert(s.subrange(1, s.len() as int)[i - 1] == s[i]);
            }
        }
    }
}

/// Whether `p` occurs in `m` starting at position `k`.
pub open spec fn occurs_at(p: Seq<char>, m: Seq<char>, k: int) -> bool {
    0 <= k && k + p.len() <= m.len() && m.subrange(k, k + p.len() as int) == p
}

/// Whether `p` occurs somewhere in `m`.
pub open spec fn occurs_in(p: Seq<char>, m: Seq<char>) -> bool {
    exists|k: int| occurs_at(p, m, k)
}

/// Whether an abnormal termination with message `message` satisfies an
/// expect-failure pattern: no pattern accepts every message, a pattern
/// requires the message to contain it.
pub open spec fn failure_accepted_model(pattern: Option<Seq<char>>, message: Seq<char>) -> bool {
    match pattern {
        None => true,
        Some(p) => occurs_in(p, message),
    }
}

/// The mathematical value of an optional pattern.
pub open spec fn pattern_model(p: Option<Vec<char>>) -> Option<Seq<char>> {
    match p {
        Some(v) => Some(v@),
        None => None,
    }
}

/// Decides whether an abnormal termination satisfies an expect-failure
/// pattern, as `failure_accepted_model` states.
pub fn failure_accepted(pattern: &Option<Vec<char>>, message: &Vec<char>) -> (r: bool)
    ensures
        r == failure_accepted_model(pattern_model(*pattern), message@),
{
    match pattern.as_ref() {
        None => true,
        Some(p) => {
            if p.len() > message.len() {
                proof {
                    assert(forall|k: int| !occurs_at(p@, message@, k));
                }
                return false;
            }
            let mut k: usize = 0;
            while k <= message.len() - p.len()
                invariant
                    pattern_model(*pattern) == Some(p@),
                    message@.len() <= usize::MAX,
                    p@.len() <= message@.len(),
                    k <= message@.len() - p@.len() + 1,
                    forall|k0: int| 0 <= k0 < k ==> !occurs_at(p@, message@, k0),
                decreases message.len() + 1 - k,
            {
                let mut j: usize = 0;
                let mut all: bool = true;
                while j < p.len()
                    invariant
                        message@.len() <= usize::MAX,
                        p@.len() <= message@.len(),
                        k + p@.len() <= message@.len(),
                        j <= p@.len(),
                        all == (forall|j0: int| 0 <= j0 < j ==> message@[k + j0] == p@[j0]),
                    decreases p.len() - j,
                {
                    if message[k + j] != p[j] {
                        all = false;
                        proof {
                            assert(!(forall|j0: int|
                                0 <= j0 < p@.len() ==> message@[k as int + j0] == p@[j0]));
                        }
                        j = p.len();
                    } else {
                        j = j + 1;
                    }
                }
                if all {
                    proof {
                        assert(message@.subrange(k as int, k + p@.len() as int) =~= p@);
                        assert(occurs_at(p@, message@, k as int));
                        assert(occurs_in(p@, message@));
                    }
                    return true;
                }
                proof {
                    if occurs_at(p@, message@, k as int) {
                        let j0 = choose|j0: int|
                            0 <= j0 < p@.len() && message@[k + j0] != p@[j0];
                        assert(message@.subrange(k as int, k + p@.len() as int)[j0] == p@[j0]);
                        assert(false);
                    }
                }
                k = k + 1;
            }
            proof {
                assert(forall|k0: int| !occurs_at(p@, message@, k0));
            }
            false
        },
    }
}

/// An expect-failure unit without a pattern accepts every
/// abnormal-termination message.
pub proof fn lemma_no_pattern_accepts_all(message: Seq<char>)
    ensures
        failure_accepted_model(None, message),
{
}

} // verus!
