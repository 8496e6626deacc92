//! The hook composer and unit generator.
//!
//! The typed tree is walked once, depth first, carrying the composed hook
//! context: the statements of every ancestor `before_each` in
//! outer-to-inner order, and of every ancestor `after_each` in
//! inner-to-outer order.  Entering a group appends its `before_each` to
//! the back of the first context and its `after_each` to the front of the
//! second; leaving it restores both, so sibling subtrees never see each
//! other's hooks.  Each test leaf emits one unit whose body is setup
//! context, then the test's own statements, then teardown context; each
//! benchmark leaf emits its body untouched; each nested group emits a
//! container.  Sibling identifiers share one scope per group.
//!
//! `gen_group_model` is the defining description; the executable generator
//! returns exactly its value.

use vstd::prelude::*;
use crate::errors::TransformError;
use crate::mangle::{canon, canonicalize, concat_stmts, copy_chars, copy_stmts, mangle, stmts_model};
use crate::output::{
    container_model, lemma_node_models_index, node_model, node_models, Container, ContainerModel,
    OutputNode, OutputNodeModel, Unit, UnitKind, UnitKindModel, UnitModel,
};
use crate::tree::{
    child_model, child_models, group_model, lemma_child_models_index, ChildModel, Group,
    GroupChild, GroupModel, TestKind, TestKindModel,
};

verus! {

/// The execution kind of the unit a test leaf emits.
pub open spec fn test_unit_kind(k: TestKindModel) -> UnitKindModel {
    match k {
        TestKindModel::Normal => UnitKindModel::Test,
        TestKindModel::Failing(p) => UnitKindModel::ExpectFailure(p),
        TestKindModel::Ignored => UnitKindModel::Skip,
    }
}

/// The statements a hook contributes: its body, or nothing.
pub open spec fn hook_stmts(o: Option<Seq<Seq<char>>>) -> Seq<Seq<char>> {
    match o {
        Some(b) => b,
        None => Seq::empty(),
    }
}

/// Emits the container of a group.  `outer_before` and `outer_after` are
/// the hook contexts inherited from the ancestors; the group's own hooks
/// are composed inside them.
pub open spec fn gen_group_model(
    g: GroupModel,
    outer_before: Seq<Seq<char>>,
    outer_after: Seq<Seq<char>>,
) -> Result<ContainerModel, TransformError>
    decreases g, 0int, 0int,
{
    match gen_children_model(
        g.children,
        0,
        outer_before + hook_stmts(g.before_each),
        hook_stmts(g.after_each) + outer_after,
        Seq::empty(),
        Seq::empty(),
    ) {
        Ok(nodes) => Ok(ContainerModel { ident: canon(g.name), nodes }),
        Err(x) => Err(x),
    }
}

/// Emits the output nodes of a group's children from position `i` on.
/// `nb` and `na` are the full hook contexts inside the group; `used` holds
/// the identifiers already claimed in this scope, `acc` the nodes emitted
/// so far.
pub open spec fn gen_children_model(
    s: Seq<ChildModel>,
    i: int,
    nb: Seq<Seq<char>>,
    na: Seq<Seq<char>>,
    used: Seq<Seq<char>>,
    acc: Seq<OutputNodeModel>,
) -> Result<Seq<OutputNodeModel>, TransformError>
    decreases s, 1int, s.len() - i,
{
    if i < 0 || i >= s.len() {
        Ok(acc)
    } else {
        match s[i] {
            ChildModel::Test(t) => {
                let id = canon(t.description);
                if used.contains(id) {
                    Err(TransformError::IdentifierCollision)
                } else {
                    gen_children_model(s, i + 1, nb, na, used.push(id), acc.push(
                        OutputNodeModel::Unit(
                            UnitModel {
                                ident: id,
                                kind: test_unit_kind(t.kind),
                                body: nb + t.body + na,
                            },
                        ),
                    ))
                }
            },
            ChildModel::Bench(b) => {
                let id = canon(b.description);
                if used.contains(id) {
                    Err(TransformError::IdentifierCollision)
                } else {
                    gen_children_model(s, i + 1, nb, na, used.push(id), acc.push(
                        OutputNodeModel::Unit(
                            UnitModel {
                                ident: id,
                                kind: UnitKindModel::Benchmark(b.bencher_binding),
                                body: b.body,
                            },
                        ),
                    ))
                }
            },
            ChildModel::Group(sg) => {
                let id = canon(sg.name);
                if used.contains(id) {
                    Err(TransformError::IdentifierCollision)
                } else {
                    match gen_group_model(sg, nb, na) {
                        Ok(c) => gen_children_model(s, i + 1, nb, na, used.push(id), acc.push(
                            OutputNodeModel::Container(c),
                        )),
                        Err(x) => Err(x),
                    }
                }
            },
        }
    }
}

/// Emits the container tree of a group, exactly as `gen_group_model`
/// states.
#[verifier::loop_isolation(false)]
pub fn generate_group(g: &Group, outer_before: &Vec<Vec<char>>, outer_after: &Vec<Vec<char>>) -> (r:
    Result<Container, TransformError>)
    ensures
        (r matches Ok(c) ==> gen_group_model(
            group_model(*g),
            stmts_model(outer_before@),
            stmts_model(outer_after@),
        ) == Ok::<ContainerModel, TransformError>(container_model(c))),
        (r matches Err(x) ==> gen_group_model(
            group_model(*g),
            stmts_model(outer_before@),
            stmts_model(outer_after@),
        ) == Err::<ContainerModel, TransformError>(x)),
    decreases *g,
{
    let ident = canonicalize(&g.name);
    let nb = match &g.before_each {
        Some(b) => concat_stmts(outer_before, b),
        None => copy_stmts(outer_before),
    };
    let na = match &g.after_each {
        Some(a) => concat_stmts(a, outer_after),
        None => copy_stmts(outer_after),
    };
    proof {
        assert(stmts_model(nb@) =~= stmts_model(outer_before@) + hook_stmts(
            group_model(*g).before_each,
        ));
        assert(stmts_model(na@) =~= hook_stmts(group_model(*g).after_each) + stmts_model(
            outer_after@,
        ));
        lemma_child_models_index(g.children@);
    }
    let ghost s = group_model(*g).children;
    let mut used: Vec<Vec<char>> = Vec::new();
    let mut acc: Vec<OutputNode> = Vec::new();
    let mut i: usize = 0;
    proof {
        assert(stmts_model(used@) =~= Seq::<Seq<char>>::empty());
        assert(node_models(acc@) =~= Seq::<OutputNodeModel>::empty());
    }
    while i < g.children.len()
        invariant
            i <= g.children@.len(),
            gen_children_model(
                s,
                i as int,
                stmts_model(nb@),
                stmts_model(na@),
                stmts_model(used@),
                node_models(acc@),
            ) == gen_children_model(
                s,
                0,
                stmts_model(nb@),
                stmts_model(na@),
                Seq::empty(),
                Seq::empty(),
            ),
        decreases g.children@.len() - i,
    {
        let ghost used0 = used@;
        let ghost acc0 = acc@;
        let child = &g.children[i];
        proof {
            assert(s[i as int] == child_model(*child));
        }
        match child {
            GroupChild::Test(t) => {
                let id = match mangle(&t.description, &used) {
                    Ok(id) => id,
                    Err(x) => {
                        return Err(x);
                    },
                };
                let body0 = concat_stmts(&nb, &t.body);
                let body = concat_stmts(&body0, &na);
                let kind = match &t.kind {
                    TestKind::Normal => UnitKind::Test,
                    TestKind::Ignored => UnitKind::Skip,
                    TestKind::Failing(p) => UnitKind::ExpectFailure(
                        match p {
                            Some(v) => Some(copy_chars(v)),
                            None => None,
                        },
                    ),
                };
                used.push(copy_chars(&id));
                let unit = Unit { ident: id, kind, body };
                proof {
                    lemma_node_models_index(acc0);
                }
                acc.push(OutputNode::Unit(unit));
                proof {
                    lemma_node_models_index(acc@);
                    assert(stmts_model(used@) =~= stmts_model(used0).push(
                        canon(child_model(*child)->Test_0.description),
                    ));
                    assert(node_models(acc@) =~= node_models(acc0).push(
                        node_model(acc@[acc0.len() as int]),
                    ));
                }
            },
            GroupChild::Bench(b) => {
                let id = match mangle(&b.description, &used) {
                    Ok(id) => id,
                    Err(x) => {
                        return Err(x);
                    },
                };
                let body = copy_stmts(&b.body);
                let kind = UnitKind::Benchmark(copy_chars(&b.bencher_binding));
                used.push(copy_chars(&id));
                let unit = Unit { ident: id, kind, body };
                proof {
                    lemma_node_models_index(acc0);
                }
                acc.push(OutputNode::Unit(unit));
                proof {
                    lemma_node_models_index(acc@);
                    assert(stmts_model(used@) =~= stmts_model(used0).push(
                        canon(child_model(*child)->Bench_0.description),
                    ));
                    assert(node_models(acc@) =~= node_models(acc0).push(
                        node_model(acc@[acc0.len() as int]),
                    ));
                }
            },
            GroupChild::Group(sg) => {
                let id = match mangle(&sg.name, &used) {
                    Ok(id) => id,
                    Err(x) => {
                        return Err(x);
                    },
                };
                proof {
                    assert(decreases_to!(*g => g.children));
                    assert(decreases_to!(g.children => g.children@));
                    assert(decreases_to!(g.children@ => g.children@[i as int]));
                }
                match generate_group(sg, &nb, &na) {
                    Err(x) => {
                        return Err(x);
                    },
                    Ok(c) => {
                        used.push(id);
                        proof {
                            lemma_node_models_index(acc0);
                        }
                        acc.push(OutputNode::Container(c));
                        proof {
                            lemma_node_models_index(acc@);
                            assert(stmts_model(used@) =~= stmts_model(used0).push(
                                canon(child_model(*child)->Group_0.name),
                            ));
                            assert(node_models(acc@) =~= node_models(acc0).push(
                                node_model(acc@[acc0.len() as int]),
                            ));
                        }
                    },
                }
            },
        }
        proof {
            assert(gen_children_model(
                s,
                i as int,
                stmts_model(nb@),
                stmts_model(na@),
                stmts_model(used0),
                node_models(acc0),
            ) == gen_children_model(
                s,
                i + 1,
                stmts_model(nb@),
                stmts_model(na@),
                stmts_model(used@),
                node_models(acc@),
            ));
        }
        i = i + 1;
    }
    let c = Container { ident, nodes: acc };
    proof {
        assert(container_model(c).nodes == node_models(acc@));
    }
    Ok(c)
}

/// What the node emitted for one group child is, given the hook contexts
/// `nb` and `na` inside the group: a test unit composes `nb`, its own
/// body and `na`; a benchmark unit keeps its body untouched; a nested
/// group becomes the container its own generation emits.
pub open spec fn node_matches(
    n: OutputNodeModel,
    c: ChildModel,
    nb: Seq<Seq<char>>,
    na: Seq<Seq<char>>,
) -> bool {
    match c {
        ChildModel::Test(t) => n == OutputNodeModel::Unit(
            UnitModel { ident: canon(t.description), kind: test_unit_kind(t.kind), body: nb + t.body + na },
        ),
        ChildModel::Bench(b) => n == OutputNodeModel::Unit(
            UnitModel {
                ident: canon(b.description),
                kind: UnitKindModel::Benchmark(b.bencher_binding),
                body: b.body,
            },
        ),
        ChildModel::Group(sg) => gen_group_model(sg, nb, na) matches Ok(c2) && n
            == OutputNodeModel::Container(c2),
    }
}

/// A successful walk of the children emits the nodes already accumulated,
/// then one node per remaining child, each as `node_matches` states.
pub proof fn lemma_gen_children_structure(
    s: Seq<ChildModel>,
    i: int,
    nb: Seq<Seq<char>>,
    na: Seq<Seq<char>>,
    used: Seq<Seq<char>>,
    acc: Seq<OutputNodeModel>,
    nodes: Seq<OutputNodeModel>,
)
    requires
        0 <= i <= s.len(),
        gen_children_model(s, i, nb, na, used, acc) == Ok::<
            Seq<OutputNodeModel>,
            TransformError,
        >(nodes),
    ensures
        nodes.len() == acc.len() + s.len() - i,
        forall|j: int| 0 <= j < acc.len() ==> nodes[j] == acc[j],
        forall|j: int| i <= j < s.len() ==> node_matches(nodes[acc.len() + j - i], #[trigger] s[j], nb, na),
    decreases s.len() - i,
{
    if i < s.len() {
        match s[i] {
            ChildModel::Test(t) => {
                let id = canon(t.description);
                let n = OutputNodeModel::Unit(
                    UnitModel { ident: id, kind: test_unit_kind(t.kind), body: nb + t.body + na },
                );
                lemma_gen_children_structure(s, i + 1, nb, na, used.push(id), acc.push(n), nodes);
            },
            ChildModel::Bench(b) => {
                let id = canon(b.description);
                let n = OutputNodeModel::Unit(
                    UnitModel {
                        ident: id,
                        kind: UnitKindModel::Benchmark(b.bencher_binding),
                        body: b.body,
                    },
                );
                lemma_gen_children_structure(s, i + 1, nb, na, used.push(id), acc.push(n), nodes);
            },
            ChildModel::Group(sg) => {
                let id = canon(sg.name);
                let c2 = gen_group_model(sg, nb, na)->Ok_0;
                let n = OutputNodeModel::Container(c2);
                lemma_gen_children_structure(s, i + 1, nb, na, used.push(id), acc.push(n), nodes);
            },
        }
    }
}

/// A successful generation of a group emits its canonical identifier and
/// one node per child, each as `node_matches` states, under the contexts
/// that include the group's own hooks.
pub proof fn lemma_gen_group_structure(
    g: GroupModel,
    outer_before: Seq<Seq<char>>,
    outer_after: Seq<Seq<char>>,
    c: ContainerModel,
)
    requires
        gen_group_model(g, outer_before, outer_after) == Ok::<ContainerModel, TransformError>(c),
    ensures
        c.ident == canon(g.name),
        c.nodes.len() == g.children.len(),
        forall|j: int| 0 <= j < g.children.len() ==> node_matches(
            c.nodes[j],
            #[trigger] g.children[j],
            outer_before + hook_stmts(g.before_each),
            hook_stmts(g.after_each) + outer_after,
        ),
{
    let nb = outer_before + hook_stmts(g.before_each);
    let na = hook_stmts(g.after_each) + outer_after;
    lemma_gen_children_structure(g.children, 0, nb, na, Seq::empty(), Seq::empty(), c.nodes);
}

/// The group standing at `path` below `g`: each path entry picks a child
/// that must be a nested group.
pub open spec fn subgroup_at(g: GroupModel, path: Seq<int>) -> Option<GroupModel>
    decreases path.len(),
{
    if path.len() == 0 {
        Some(g)
    } else {
        let i = path[0];
        if 0 <= i < g.children.len() {
            match g.children[i] {
                ChildModel::Group(sg) => subgroup_at(sg, path.drop_first()),
                _ => None,
            }
        } else {
            None
        }
    }
}

/// Every `before_each` statement from `g` down to the group at `path`,
/// outer to inner.
pub open spec fn before_context(g: GroupModel, path: Seq<int>) -> Seq<Seq<char>>
    decreases path.len(),
{
    if path.len() == 0 {
        hook_stmts(g.before_each)
    } else {
        let i = path[0];
        if 0 <= i < g.children.len() {
            match g.children[i] {
                ChildModel::Group(sg) => hook_stmts(g.before_each) + before_context(
                    sg,
                    path.drop_first(),
                ),
                _ => Seq::empty(),
            }
        } else {
            Seq::empty()
        }
    }
}

/// Every `after_each` statement from the group at `path` up to `g`,
/// inner to outer.
pub open spec fn after_context(g: GroupModel, path: Seq<int>) -> Seq<Seq<char>>
    decreases path.len(),
{
    if path.len() == 0 {
        hook_stmts(g.after_each)
    } else {
        let i = path[0];
        if 0 <= i < g.children.len() {
            match g.children[i] {
                ChildModel::Group(sg) => after_context(sg, path.drop_first()) + hook_stmts(
                    g.after_each,
                ),
                _ => Seq::empty(),
            }
        } else {
            Seq::empty()
        }
    }
}

/// The container standing at `path` below `c`.
pub open spec fn container_at(c: ContainerModel, path: Seq<int>) -> Option<ContainerModel>
    decreases path.len(),
{
    if path.len() == 0 {
        Some(c)
    } else {
        let i = path[0];
        if 0 <= i < c.nodes.len() {
            match c.nodes[i] {
                OutputNodeModel::Container(sc) => container_at(sc, path.drop_first()),
                _ => None,
            }
        } else {
            None
        }
    }
}

/// Hook composition at any depth, under inherited contexts: the unit of a
/// test leaf holds the inherited setup context and every `before_each` on
/// its path, outer to inner, then its own statements, then every
/// `after_each` on its path, inner to outer, and the inherited teardown
/// context.
pub proof fn lemma_hook_composition_ctx(
    g: GroupModel,
    outer_before: Seq<Seq<char>>,
    outer_after: Seq<Seq<char>>,
    c: ContainerModel,
    path: Seq<int>,
    sg: GroupModel,
    j: int,
)
    requires
        gen_group_model(g, outer_before, outer_after) == Ok::<ContainerModel, TransformError>(c),
        subgroup_at(g, path) == Some(sg),
        0 <= j < sg.children.len(),
        sg.children[j] is Test,
    ensures
        container_at(c, path) matches Some(tc) && tc.nodes.len() == sg.children.len()
            && tc.nodes[j] == OutputNodeModel::Unit(
            UnitModel {
                ident: canon(sg.children[j]->Test_0.description),
                kind: test_unit_kind(sg.children[j]->Test_0.kind),
                body: (outer_before + before_context(g, path)) + sg.children[j]->Test_0.body + (
                after_context(g, path) + outer_after),
            },
        ),
    decreases path.len(),
{
    lemma_gen_group_structure(g, outer_before, outer_after, c);
    let nb = outer_before + hook_stmts(g.before_each);
    let na = hook_stmts(g.after_each) + outer_after;
    if path.len() == 0 {
        let t = sg.children[j]->Test_0;
        assert(node_matches(c.nodes[j], g.children[j], nb, na));
        assert((outer_before + before_context(g, path)) =~= nb);
        assert((after_context(g, path) + outer_after) =~= na);
    } else {
        let i = path[0];
        let sg0 = g.children[i]->Group_0;
        assert(node_matches(c.nodes[i], g.children[i], nb, na));
        let c2 = gen_group_model(sg0, nb, na)->Ok_0;
        lemma_hook_composition_ctx(sg0, nb, na, c2, path.drop_first(), sg, j);
        assert(container_at(c, path) == container_at(c2, path.drop_first()));
        assert((nb + before_context(sg0, path.drop_first())) =~= (outer_before + before_context(
            g,
            path,
        )));
        assert((after_context(sg0, path.drop_first()) + na) =~= (after_context(g, path)
            + outer_after));
    }
}

/// Hook composition from the document root: a leaf test's unit body is
/// its ancestor `before_each` bodies outer to inner, then its own body,
/// then its ancestor `after_each` bodies inner to outer.
pub proof fn lemma_hook_composition(
    g: GroupModel,
    c: ContainerModel,
    path: Seq<int>,
    sg: GroupModel,
    j: int,
)
    requires
        gen_group_model(g, Seq::empty(), Seq::empty()) == Ok::<ContainerModel, TransformError>(c),
        subgroup_at(g, path) == Some(sg),
        0 <= j < sg.children.len(),
        sg.children[j] is Test,
    ensures
        container_at(c, path) matches Some(tc) && tc.nodes.len() == sg.children.len()
            && tc.nodes[j] == OutputNodeModel::Unit(
            UnitModel {
                ident: canon(sg.children[j]->Test_0.description),
                kind: test_unit_kind(sg.children[j]->Test_0.kind),
                body: before_context(g, path) + sg.children[j]->Test_0.body + after_context(
                    g,
                    path,
                ),
            },
        ),
{
    lemma_hook_composition_ctx(g, Seq::empty(), Seq::empty(), c, path, sg, j);
    assert((Seq::<Seq<char>>::empty() + before_context(g, path)) =~= before_context(g, path));
    assert((after_context(g, path) + Seq::<Seq<char>>::empty()) =~= after_context(g, path));
    assert((before_context(g, path) + sg.children[j]->Test_0.body + after_context(g, path)) =~= (
    (Seq::<Seq<char>>::empty() + before_context(g, path)) + sg.children[j]->Test_0.body + (
    after_context(g, path) + Seq::<Seq<char>>::empty())));
}

/// A benchmark's unit body never holds a hook statement: at any depth,
/// whatever hooks its group or any ancestor declares, the emitted body is
/// the benchmark's own body unchanged.
pub proof fn lemma_bench_body_unchanged(
    g: GroupModel,
    outer_before: Seq<Seq<char>>,
    outer_after: Seq<Seq<char>>,
    c: ContainerModel,
    path: Seq<int>,
    sg: GroupModel,
    j: int,
)
    requires
        gen_group_model(g, outer_before, outer_after) == Ok::<ContainerModel, TransformError>(c),
        subgroup_at(g, path) == Some(sg),
        0 <= j < sg.children.len(),
        sg.children[j] is Bench,
    ensures
        container_at(c, path) matches Some(tc) && tc.nodes.len() == sg.children.len()
            && tc.nodes[j] == OutputNodeModel::Unit(
            UnitModel {
                ident: canon(sg.children[j]->Bench_0.description),
                kind: UnitKindModel::Benchmark(sg.children[j]->Bench_0.bencher_binding),
                body: sg.children[j]->Bench_0.body,
            },
        ),
    decreases path.len(),
{
    lemma_gen_group_structure(g, outer_before, outer_after, c);
    let nb = outer_before + hook_stmts(g.before_each);
    let na = hook_stmts(g.after_each) + outer_after;
    if path.len() == 0 {
        assert(node_matches(c.nodes[j], g.children[j], nb, na));
    } else {
        let i = path[0];
        let sg0 = g.children[i]->Group_0;
        assert(node_matches(c.nodes[i], g.children[i], nb, na));
        let c2 = gen_group_model(sg0, nb, na)->Ok_0;
        lemma_bench_body_unchanged(sg0, nb, na, c2, path.drop_first(), sg, j);
        assert(container_at(c, path) == container_at(c2, path.drop_first()));
    }
}

/// An `ignore` test is not omitted: its unit stands in the output at the
/// child's own position, marked to be skipped.
pub proof fn lemma_ignored_test_emitted(
    g: GroupModel,
    outer_before: Seq<Seq<char>>,
    outer_after: Seq<Seq<char>>,
    c: ContainerModel,
    j: int,
)
    requires
        gen_group_model(g, outer_before, outer_after) == Ok::<ContainerModel, TransformError>(c),
        0 <= j < g.children.len(),
        g.children[j] is Test,
        g.children[j]->Test_0.kind is Ignored,
    ensures
        c.nodes.len() == g.children.len(),
        c.nodes[j] matches OutputNodeModel::Unit(u) && u.kind is Skip && u.ident == canon(
            g.children[j]->Test_0.description,
        ),
{
    lemma_gen_group_structure(g, outer_before, outer_after, c);
    assert(node_matches(
        c.nodes[j],
        g.children[j],
        outer_before + hook_stmts(g.before_each),
        hook_stmts(g.after_each) + outer_after,
    ));
}

/// The identifier a node answers to: a unit's own, or a container's.
pub open spec fn node_ident(n: OutputNodeModel) -> Seq<char> {
    match n {
        OutputNodeModel::Unit(u) => u.ident,
        OutputNodeModel::Container(c) => c.ident,
    }
}

/// Each emitted node's identifier joins the used set before the walk goes
/// on, so no later sibling can claim it again.
proof fn lemma_gen_children_idents(
    s: Seq<ChildModel>,
    i: int,
    nb: Seq<Seq<char>>,
    na: Seq<Seq<char>>,
    used: Seq<Seq<char>>,
    acc: Seq<OutputNodeModel>,
    nodes: Seq<OutputNodeModel>,
)
    requires
        0 <= i <= s.len(),
        gen_children_model(s, i, nb, na, used, acc) == Ok::<
            Seq<OutputNodeModel>,
            TransformError,
        >(nodes),
        forall|j: int| 0 <= j < acc.len() ==> used.contains(node_ident(#[trigger] acc[j])),
        forall|j1: int, j2: int|
            0 <= j1 < j2 < acc.len() ==> node_ident(acc[j1]) != node_ident(acc[j2]),
    ensures
        forall|j1: int, j2: int|
            0 <= j1 < j2 < nodes.len() ==> node_ident(nodes[j1]) != node_ident(nodes[j2]),
    decreases s.len() - i,
{
    if i < s.len() {
        let id = match s[i] {
            ChildModel::Test(t) => canon(t.description),
            ChildModel::Bench(b) => canon(b.description),
            ChildModel::Group(sg) => canon(sg.name),
        };
        let n = match s[i] {
            ChildModel::Test(t) => OutputNodeModel::Unit(
                UnitModel { ident: id, kind: test_unit_kind(t.kind), body: nb + t.body + na },
            ),
            ChildModel::Bench(b) => OutputNodeModel::Unit(
                UnitModel {
                    ident: id,
                    kind: UnitKindModel::Benchmark(b.bencher_binding),
                    body: b.body,
                },
            ),
            ChildModel::Group(sg) => OutputNodeModel::Container(gen_group_model(sg, nb, na)->Ok_0),
        };
        if s[i] is Group {
            lemma_gen_group_structure(
                s[i]->Group_0,
                nb,
                na,
                gen_group_model(s[i]->Group_0, nb, na)->Ok_0,
            );
        }
        assert(node_ident(n) == id);
        let used2 = used.push(id);
        let acc2 = acc.push(n);
        assert forall|j: int| 0 <= j < acc2.len() implies used2.contains(
            node_ident(#[trigger] acc2[j]),
        ) by {
            if j < acc.len() {
                let k = choose|k: int| 0 <= k < used.len() && used[k] == node_ident(acc[j]);
                assert(used2[k] == node_ident(acc2[j]));
            } else {
                assert(used2[used.len() as int] == node_ident(acc2[j]));
            }
        }
        assert forall|j1: int, j2: int| 0 <= j1 < j2 < acc2.len() implies node_ident(acc2[j1])
            != node_ident(acc2[j2]) by {
            if j2 == acc.len() {
                assert(used.contains(node_ident(acc[j1])));
            }
        }
        lemma_gen_children_idents(s, i + 1, nb, na, used2, acc2, nodes);
    }
}

/// Name uniqueness per scope: in a successfully generated container, the
/// sibling nodes carry pairwise distinct identifiers.
pub proof fn lemma_sibling_idents_distinct(
    g: GroupModel,
    outer_before: Seq<Seq<char>>,
    outer_after: Seq<Seq<char>>,
    c: ContainerModel,
)
    requires
        gen_group_model(g, outer_before, outer_after) == Ok::<ContainerModel, TransformError>(c),
    ensures
        forall|j1: int, j2: int|
            0 <= j1 < j2 < c.nodes.len() ==> node_ident(c.nodes[j1]) != node_ident(c.nodes[j2]),
{
    lemma_gen_children_idents(
        g.children,
        0,
        outer_before + hook_stmts(g.before_each),
        hook_stmts(g.after_each) + outer_after,
        Seq::empty(),
        Seq::empty(),
        c.nodes,
    );
}

/// Sibling subtrees never observe each other's hooks: the node emitted
/// for a child is a function of that child and of the hook context alone.
/// Two groups that declare the same hooks and agree on one child — at any
/// positions, with any other children around them — emit the same node
/// for it.
pub proof fn lemma_sibling_isolation(
    g1: GroupModel,
    g2: GroupModel,
    outer_before: Seq<Seq<char>>,
    outer_after: Seq<Seq<char>>,
    c1: ContainerModel,
    c2: ContainerModel,
    j1: int,
    j2: int,
)
    requires
        gen_group_model(g1, outer_before, outer_after) == Ok::<ContainerModel, TransformError>(c1),
        gen_group_model(g2, outer_before, outer_after) == Ok::<ContainerModel, TransformError>(c2),
        g1.before_each == g2.before_each,
        g1.after_each == g2.after_each,
        0 <= j1 < g1.children.len(),
        0 <= j2 < g2.children.len(),
        g1.children[j1] == g2.children[j2],
    ensures
        c1.nodes[j1] == c2.nodes[j2],
{
    lemma_gen_group_structure(g1, outer_before, outer_after, c1);
    lemma_gen_group_structure(g2, outer_before, outer_after, c2);
    assert(node_matches(
        c1.nodes[j1],
        g1.children[j1],
        outer_before + hook_stmts(g1.before_each),
        hook_stmts(g1.after_each) + outer_after,
    ));
    assert(node_matches(
        c2.nodes[j2],
        g2.children[j2],
        outer_before + hook_stmts(g2.before_each),
        hook_stmts(g2.after_each) + outer_after,
    ));
}

} // verus!
