//! The typed hierarchy the builder produces.
//!
//! A group owns its name, at most one `before_each` body, at most one
//! `after_each` body, and an ordered sequence of children: nested groups,
//! tests and benchmarks.  Child order is significant — it fixes emission
//! order and hook composition order.

use vstd::prelude::*;
use crate::mangle::stmts_model;

verus! {

/// How a test is to be run.
#[derive(Debug)]
pub enum TestKind {
    /// Run normally.
    Normal,
    /// Run and require abnormal termination; with a pattern, the
    /// termination message must also match it.
    Failing(Option<Vec<char>>),
    /// Generate the unit but mark it skipped by default.
    Ignored,
}

/// A leaf describing one test.
#[derive(Debug)]
pub struct TestItem {
    /// Free text, used for identifier generation and reporting.
    pub description: Vec<char>,
    /// How the test is to be run.
    pub kind: TestKind,
    /// The opaque statements of the test itself.
    pub body: Vec<Vec<char>>,
}

/// A leaf describing one benchmark.
#[derive(Debug)]
pub struct BenchItem {
    /// Free text, used for identifier generation and reporting.
    pub description: Vec<char>,
    /// The name under which the benchmarking handle is exposed in the body.
    pub bencher_binding: Vec<char>,
    /// The opaque statements of the benchmark.
    pub body: Vec<Vec<char>>,
}

/// One child of a group.
#[derive(Debug)]
pub enum GroupChild {
    Group(Group),
    Test(TestItem),
    Bench(BenchItem),
}

/// A named node of the hierarchy.
#[derive(Debug)]
pub struct Group {
    /// The group's name.
    pub name: Vec<char>,
    /// The setup hook, composed into every descendant test.
    pub before_each: Option<Vec<Vec<char>>>,
    /// The teardown hook, composed into every descendant test.
    pub after_each: Option<Vec<Vec<char>>>,
    /// The children, in document order.
    pub children: Vec<GroupChild>,
}

/// The mathematical shape of a test kind.
pub ghost enum TestKindModel {
    Normal,
    Failing(Option<Seq<char>>),
    Ignored,
}

/// The mathematical shape of a test leaf.
pub ghost struct TestItemModel {
    pub description: Seq<char>,
    pub kind: TestKindModel,
    pub body: Seq<Seq<char>>,
}

/// The mathematical shape of a benchmark leaf.
pub ghost struct BenchItemModel {
    pub description: Seq<char>,
    pub bencher_binding: Seq<char>,
    pub body: Seq<Seq<char>>,
}

/// The mathematical shape of a group child.
pub ghost enum ChildModel {
    Group(GroupModel),
    Test(TestItemModel),
    Bench(BenchItemModel),
}

/// The mathematical shape of a group.
pub ghost struct GroupModel {
    pub name: Seq<char>,
    pub before_each: Option<Seq<Seq<char>>>,
    pub after_each: Option<Seq<Seq<char>>>,
    pub children: Seq<ChildModel>,
}

/// The model of a test kind.
pub open spec fn test_kind_model(k: TestKind) -> TestKindModel {
    match k {
        TestKind::Normal => TestKindModel::Normal,
        TestKind::Failing(p) => TestKindModel::Failing(
            match p {
                Some(v) => Some(v@),
                None => None,
            },
        ),
        TestKind::Ignored => TestKindModel::Ignored,
    }
}

/// The model of an optional hook body.
pub open spec fn opt_stmts_model(o: Option<Vec<Vec<char>>>) -> Option<Seq<Seq<char>>> {
    match o {
        Some(b) => Some(stmts_model(b@)),
        None => None,
    }
}

/// The model of a group.
pub open spec fn group_model(g: Group) -> GroupModel
    decreases g, 0int,
{
    GroupModel {
        name: g.name@,
        before_each: opt_stmts_model(g.before_each),
        after_each: opt_stmts_model(g.after_each),
        children: child_models(g.children@),
    }
}

/// The model of one group child.
pub open spec fn child_model(c: GroupChild) -> ChildModel
    decreases c, 1int,
{
    match c {
        GroupChild::Group(g) => ChildModel::Group(group_model(g)),
        GroupChild::Test(t) => ChildModel::Test(
            TestItemModel {
                description: t.description@,
                kind: test_kind_model(t.kind),
                body: stmts_model(t.body@),
            },
        ),
        GroupChild::Bench(b) => ChildModel::Bench(
            BenchItemModel {
                description: b.description@,
                bencher_binding: b.bencher_binding@,
                body: stmts_model(b.body@),
            },
        ),
    }
}

/// The models of a sequence of children, in order.
pub open spec fn child_models(s: Seq<GroupChild>) -> Seq<ChildModel>
    decreases s, 2int,
{
    if s.len() == 0 {
        Seq::empty()
    } else {
        seq![child_model(s[0])] + child_models(s.subrange(1, s.len() as int))
    }
}

impl View for Group {
    type V = GroupModel;

    open spec fn view(&self) -> GroupModel {
        group_model(*self)
    }
}

/// The model of a child sequence is the sequence of the models.
pub proof fn lemma_child_models_index(s: Seq<GroupChild>)
    ensures
        child_models(s).len() == s.len(),
        forall|i: int| 0 <= i < s.len() ==> child_models(s)[i] == child_model(s[i]),
    decreases s.len(),
{
    if s.len() > 0 {
        lemma_child_models_index(s.subrange(1, s.len() as int));
        assert forall|i: int| 0 <= i < s.len() implies child_models(s)[i] == child_model(s[i]) by {
            if i > 0 {
                assert(s.subrange(1, s.len() as int)[i - 1] == s[i]);
            }
        }
    }
}

} // verus!
