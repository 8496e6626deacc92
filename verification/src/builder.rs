//! The hierarchy builder: from raw blocks to the typed tree.
//!
//! Walking a `describe` block's children in order, a `before_each` or
//! `after_each` attaches to the group — a second one of the same kind is a
//! `DuplicateHook` error wherever it stands; `it`, `failing` and `ignore`
//! become test leaves; `bench` becomes a benchmark leaf; a nested
//! `describe` is built recursively.  A leaf without its description, body
//! or (for `bench`) binding is a `MalformedItem` error.
//!
//! `build_group_model` is the defining description; the executable builder
//! returns exactly its value.

use vstd::prelude::*;
use crate::errors::TransformError;
use crate::mangle::{copy_chars, copy_stmts};
use crate::raw::{lemma_raw_models_index, raw_model, raw_models, RawBlock, RawBlockModel};
use crate::tokens::Keyword;
use crate::tree::{
    child_model, child_models, group_model, lemma_child_models_index, opt_stmts_model, BenchItem,
    BenchItemModel, ChildModel, Group, GroupChild, GroupModel, TestItem, TestItemModel, TestKind,
    TestKindModel,
};

verus! {

/// The result of walking a prefix of a group's children: the hooks seen so
/// far and the typed children collected so far.
pub type HookState = (Option<Seq<Seq<char>>>, Option<Seq<Seq<char>>>, Seq<ChildModel>);

/// Builds a typed group from a raw `describe` block.
pub open spec fn build_group_model(b: RawBlockModel) -> Result<GroupModel, TransformError>
    decreases b, 0int, 0int,
{
    if b.kw != Keyword::Describe {
        Err(TransformError::MalformedItem)
    } else {
        match b.name {
            None => Err(TransformError::MalformedItem),
            Some(name) => match build_children_model(b.children, 0, None, None, Seq::empty()) {
                Ok((before, after, children)) => Ok(
                    GroupModel { name, before_each: before, after_each: after, children },
                ),
                Err(x) => Err(x),
            },
        }
    }
}

/// Walks the children of a group from position `i` on, carrying the hooks
/// and typed children already collected.
pub open spec fn build_children_model(
    s: Seq<RawBlockModel>,
    i: int,
    before: Option<Seq<Seq<char>>>,
    after: Option<Seq<Seq<char>>>,
    acc: Seq<ChildModel>,
) -> Result<HookState, TransformError>
    decreases s, 1int, s.len() - i,
{
    if i < 0 || i >= s.len() {
        Ok((before, after, acc))
    } else {
        let blk = s[i];
        match blk.kw {
            Keyword::Describe => match build_group_model(blk) {
                Ok(g) => build_children_model(s, i + 1, before, after, acc.push(
                    ChildModel::Group(g),
                )),
                Err(x) => Err(x),
            },
            Keyword::BeforeEach => match blk.body {
                None => Err(TransformError::MalformedItem),
                Some(stmts) => if before is Some {
                    Err(TransformError::DuplicateHook)
                } else {
                    build_children_model(s, i + 1, Some(stmts), after, acc)
                },
            },
            Keyword::AfterEach => match blk.body {
                None => Err(TransformError::MalformedItem),
                Some(stmts) => if after is Some {
                    Err(TransformError::DuplicateHook)
                } else {
                    build_children_model(s, i + 1, before, Some(stmts), acc)
                },
            },
            Keyword::It => match (blk.name, blk.body) {
                (Some(d), Some(stmts)) => build_children_model(s, i + 1, before, after, acc.push(
                    ChildModel::Test(
                        TestItemModel { description: d, kind: TestKindModel::Normal, body: stmts },
                    ),
                )),
                _ => Err(TransformError::MalformedItem),
            },
            Keyword::Failing => match (blk.name, blk.body) {
                (Some(d), Some(stmts)) => build_children_model(s, i + 1, before, after, acc.push(
                    ChildModel::Test(
                        TestItemModel {
                            description: d,
                            kind: TestKindModel::Failing(blk.arg),
                            body: stmts,
                        },
                    ),
                )),
                _ => Err(TransformError::MalformedItem),
            },
            Keyword::Ignore => match (blk.name, blk.body) {
                (Some(d), Some(stmts)) => build_children_model(s, i + 1, before, after, acc.push(
                    ChildModel::Test(
                        TestItemModel { description: d, kind: TestKindModel::Ignored, body: stmts },
                    ),
                )),
                _ => Err(TransformError::MalformedItem),
            },
            Keyword::Bench => match (blk.name, blk.arg, blk.body) {
                (Some(d), Some(binding), Some(stmts)) => build_children_model(
                    s,
                    i + 1,
                    before,
                    after,
                    acc.push(
                        ChildModel::Bench(
                            BenchItemModel {
                                description: d,
                                bencher_binding: binding,
                                body: stmts,
                            },
                        ),
                    ),
                ),
                _ => Err(TransformError::MalformedItem),
            },
        }
    }
}

/// Builds the typed tree of a raw `describe` block, exactly as
/// `build_group_model` states.
#[verifier::loop_isolation(false)]
pub fn build_group(b: &RawBlock) -> (r: Result<Group, TransformError>)
    ensures
        (r matches Ok(g) ==> build_group_model(raw_model(*b)) == Ok::<GroupModel, TransformError>(
            group_model(g),
        )),
        (r matches Err(x) ==> build_group_model(raw_model(*b)) == Err::<
            GroupModel,
            TransformError,
        >(x)),
    decreases *b,
{
    match b.kw {
        Keyword::Describe => {},
        _ => {
            return Err(TransformError::MalformedItem);
        },
    }
    let name = match &b.name {
        Some(n) => copy_chars(n),
        None => {
            return Err(TransformError::MalformedItem);
        },
    };
    let ghost s = raw_model(*b).children;
    proof {
        lemma_raw_models_index(b.children@);
    }
    let mut before: Option<Vec<Vec<char>>> = None;
    let mut after: Option<Vec<Vec<char>>> = None;
    let mut acc: Vec<GroupChild> = Vec::new();
    let mut i: usize = 0;
    while i < b.children.len()
        invariant
            i <= b.children@.len(),
            build_children_model(
                s,
                i as int,
                opt_stmts_model(before),
                opt_stmts_model(after),
                child_models(acc@),
            ) == build_children_model(s, 0, None, None, Seq::empty()),
        decreases b.children@.len() - i,
    {
        let ghost before0 = opt_stmts_model(before);
        let ghost after0 = opt_stmts_model(after);
        let ghost acc0 = acc@;
        let blk = &b.children[i];
        proof {
            assert(s[i as int] == raw_model(*blk));
            assert(decreases_to!(*b => b.children));
            assert(decreases_to!(b.children => b.children@));
            assert(decreases_to!(b.children@ => b.children@[i as int]));
        }
        match blk.kw {
            Keyword::Describe => {
                match build_group(blk) {
                    Ok(g) => {
                        proof {
                            lemma_child_models_index(acc0);
                        }
                        acc.push(GroupChild::Group(g));
                        proof {
                            lemma_child_models_index(acc@);
                            assert(child_models(acc@) =~= child_models(acc0).push(
                                child_model(acc@[acc0.len() as int]),
                            ));
                        }
                    },
                    Err(x) => {
                        return Err(x);
                    },
                }
            },
            Keyword::BeforeEach => {
                match &blk.body {
                    None => {
                        return Err(TransformError::MalformedItem);
                    },
                    Some(stmts) => {
                        if before.is_some() {
                            return Err(TransformError::DuplicateHook);
                        }
                        before = Some(copy_stmts(stmts));
                    },
                }
            },
            Keyword::AfterEach => {
                match &blk.body {
                    None => {
                        return Err(TransformError::MalformedItem);
                    },
                    Some(stmts) => {
                        if after.is_some() {
                            return Err(TransformError::DuplicateHook);
                        }
                        after = Some(copy_stmts(stmts));
                    },
                }
            },
            Keyword::It | Keyword::Failing | Keyword::Ignore => {
                let d = match &blk.name {
                    Some(d) => copy_chars(d),
                    None => {
                        return Err(TransformError::MalformedItem);
                    },
                };
                let body = match &blk.body {
                    Some(stmts) => copy_stmts(stmts),
                    None => {
                        return Err(TransformError::MalformedItem);
                    },
                };
                let kind = match blk.kw {
                    Keyword::It => TestKind::Normal,
                    Keyword::Ignore => TestKind::Ignored,
                    _ => TestKind::Failing(
                        match &blk.arg {
                            Some(p) => Some(copy_chars(p)),
                            None => None,
                        },
                    ),
                };
                let item = TestItem { description: d, kind, body };
                proof {
                    lemma_child_models_index(acc0);
                }
                acc.push(GroupChild::Test(item));
                proof {
                    lemma_child_models_index(acc@);
                    assert(child_models(acc@) =~= child_models(acc0).push(
                        child_model(acc@[acc0.len() as int]),
                    ));
                }
            },
            Keyword::Bench => {
                let d = match &blk.name {
                    Some(d) => copy_chars(d),
                    None => {
                        return Err(TransformError::MalformedItem);
                    },
                };
                let binding = match &blk.arg {
                    Some(a) => copy_chars(a),
                    None => {
                        return Err(TransformError::MalformedItem);
                    },
                };
                let body = match &blk.body {
                    Some(stmts) => copy_stmts(stmts),
                    None => {
                        return Err(TransformError::MalformedItem);
                    },
                };
                let item = BenchItem { description: d, bencher_binding: binding, body };
                proof {
                    lemma_child_models_index(acc0);
                }
                acc.push(GroupChild::Bench(item));
                proof {
                    lemma_child_models_index(acc@);
                    assert(child_models(acc@) =~= child_models(acc0).push(
                        child_model(acc@[acc0.len() as int]),
                    ));
                }
            },
        }
        proof {
            assert(build_children_model(s, i as int, before0, after0, child_models(acc0))
                == build_children_model(
                s,
                i + 1,
                opt_stmts_model(before),
                opt_stmts_model(after),
                child_models(acc@),
            ));
        }
        i = i + 1;
    }
    let g = Group { name, before_each: before, after_each: after, children: acc };
    proof {
        assert(group_model(g).children == child_models(acc@));
    }
    Ok(g)
}

/// Once a hook of one kind is attached, any later block of the same kind
/// makes the walk fail.
proof fn lemma_children_hook_already(
    s: Seq<RawBlockModel>,
    k: int,
    before: Option<Seq<Seq<char>>>,
    after: Option<Seq<Seq<char>>>,
    acc: Seq<ChildModel>,
    j: int,
    hook_is_before: bool,
)
    requires
        0 <= k <= j < s.len(),
        hook_is_before ==> s[j].kw == Keyword::BeforeEach && before is Some,
        !hook_is_before ==> s[j].kw == Keyword::AfterEach && after is Some,
    ensures
        build_children_model(s, k, before, after, acc) is Err,
    decreases j - k,
{
    if k < j {
        let blk = s[k];
        match blk.kw {
            Keyword::Describe => {
                match build_group_model(blk) {
                    Ok(g) => {
                        lemma_children_hook_already(
                            s,
                            k + 1,
                            before,
                            after,
                            acc.push(ChildModel::Group(g)),
                            j,
                            hook_is_before,
                        );
                    },
                    Err(_) => {},
                }
            },
            Keyword::BeforeEach => {
                match blk.body {
                    Some(stmts) => {
                        if !(before is Some) {
                            lemma_children_hook_already(
                                s,
                                k + 1,
                                Some(stmts),
                                after,
                                acc,
                                j,
                                hook_is_before,
                            );
                        }
                    },
                    None => {},
                }
            },
            Keyword::AfterEach => {
                match blk.body {
                    Some(stmts) => {
                        if !(after is Some) {
                            lemma_children_hook_already(
                                s,
                                k + 1,
                                before,
                                Some(stmts),
                                acc,
                                j,
                                hook_is_before,
                            );
                        }
                    },
                    None => {},
                }
            },
            Keyword::It => {
                match (blk.name, blk.body) {
                    (Some(d), Some(stmts)) => {
                        lemma_children_hook_already(
                            s,
                            k + 1,
                            before,
                            after,
                            acc.push(
                                ChildModel::Test(
                                    TestItemModel {
                                        description: d,
                                        kind: TestKindModel::Normal,
                                        body: stmts,
                                    },
                                ),
                            ),
                            j,
                            hook_is_before,
                        );
                    },
                    _ => {},
                }
            },
            Keyword::Failing => {
                match (blk.name, blk.body) {
                    (Some(d), Some(stmts)) => {
                        lemma_children_hook_already(
                            s,
                            k + 1,
                            before,
                            after,
                            acc.push(
                                ChildModel::Test(
                                    TestItemModel {
                                        description: d,
                                        kind: TestKindModel::Failing(blk.arg),
                                        body: stmts,
                                    },
                                ),
                            ),
                            j,
                            hook_is_before,
                        );
                    },
                    _ => {},
                }
            },
            Keyword::Ignore => {
                match (blk.name, blk.body) {
                    (Some(d), Some(stmts)) => {
                        lemma_children_hook_already(
                            s,
                            k + 1,
                            before,
                            after,
                            acc.push(
                                ChildModel::Test(
                                    TestItemModel {
                                        description: d,
                                        kind: TestKindModel::Ignored,
                                        body: stmts,
                                    },
                                ),
                            ),
                            j,
                            hook_is_before,
                        );
                    },
                    _ => {},
                }
            },
            Keyword::Bench => {
                match (blk.name, blk.arg, blk.body) {
                    (Some(d), Some(binding), Some(stmts)) => {
                        lemma_children_hook_already(
                            s,
                            k + 1,
                            before,
                            after,
                            acc.push(
                                ChildModel::Bench(
                                    BenchItemModel {
                                        description: d,
                                        bencher_binding: binding,
                                        body: stmts,
                                    },
                                ),
                            ),
                            j,
                            hook_is_before,
                        );
                    },
                    _ => {},
                }
            },
        }
    }
}

/// With two hook blocks of the same kind still ahead, the walk fails.
proof fn lemma_children_second_hook(
    s: Seq<RawBlockModel>,
    k: int,
    before: Option<Seq<Seq<char>>>,
    after: Option<Seq<Seq<char>>>,
    acc: Seq<ChildModel>,
    i: int,
    j: int,
    hook_is_before: bool,
)
    requires
        0 <= k <= i < j < s.len(),
        hook_is_before ==> s[i].kw == Keyword::BeforeEach && s[j].kw == Keyword::BeforeEach,
        !hook_is_before ==> s[i].kw == Keyword::AfterEach && s[j].kw == Keyword::AfterEach,
    ensures
        build_children_model(s, k, before, after, acc) is Err,
    decreases i - k,
{
    let blk = s[k];
    if k == i {
        match blk.body {
            Some(stmts) => {
                if hook_is_before && !(before is Some) {
                    lemma_children_hook_already(
                        s,
                        k + 1,
                        Some(stmts),
                        after,
                        acc,
                        j,
                        hook_is_before,
                    );
                }
                if !hook_is_before && !(after is Some) {
                    lemma_children_hook_already(
                        s,
                        k + 1,
                        before,
                        Some(stmts),
                        acc,
                        j,
                        hook_is_before,
                    );
                }
            },
            None => {},
        }
    } else {
        match blk.kw {
            Keyword::Describe => {
                match build_group_model(blk) {
                    Ok(g) => {
                        lemma_children_second_hook(
                            s,
                            k + 1,
                            before,
                            after,
                            acc.push(ChildModel::Group(g)),
                            i,
                            j,
                            hook_is_before,
                        );
                    },
                    Err(_) => {},
                }
            },
            Keyword::BeforeEach => {
                match blk.body {
                    Some(stmts) => {
                        if !(before is Some) {
                            lemma_children_second_hook(
                                s,
                                k + 1,
                                Some(stmts),
                                after,
                                acc,
                                i,
                                j,
                                hook_is_before,
                            );
                        }
                    },
                    None => {},
                }
            },
            Keyword::AfterEach => {
                match blk.body {
                    Some(stmts) => {
                        if !(after is Some) {
                            lemma_children_second_hook(
                                s,
                                k + 1,
                                before,
                                Some(stmts),
                                acc,
                                i,
                                j,
                                hook_is_before,
                            );
                        }
                    },
                    None => {},
                }
            },
            Keyword::It => {
                match (blk.name, blk.body) {
                    (Some(d), Some(stmts)) => {
                        lemma_children_second_hook(
                            s,
                            k + 1,
                            before,
                            after,
                            acc.push(
                                ChildModel::Test(
                                    TestItemModel {
                                        description: d,
                                        kind: TestKindModel::Normal,
                                        body: stmts,
                                    },
                                ),
                            ),
                            i,
                            j,
                            hook_is_before,
                        );
                    },
                    _ => {},
                }
            },
            Keyword::Failing => {
                match (blk.name, blk.body) {
                    (Some(d), Some(stmts)) => {
                        lemma_children_second_hook(
                            s,
                            k + 1,
                            before,
                            after,
                            acc.push(
                                ChildModel::Test(
                                    TestItemModel {
                                        description: d,
                                        kind: TestKindModel::Failing(blk.arg),
                                        body: stmts,
                                    },
                                ),
                            ),
                            i,
                            j,
                            hook_is_before,
                        );
                    },
                    _ => {},
                }
            },
            Keyword::Ignore => {
                match (blk.name, blk.body) {
                    (Some(d), Some(stmts)) => {
                        lemma_children_second_hook(
                            s,
                            k + 1,
                            before,
                            after,
                            acc.push(
                                ChildModel::Test(
                                    TestItemModel {
                                        description: d,
                                        kind: TestKindModel::Ignored,
                                        body: stmts,
                                    },
                                ),
                            ),
                            i,
                            j,
                            hook_is_before,
                        );
                    },
                    _ => {},
                }
            },
            Keyword::Bench => {
                match (blk.name, blk.arg, blk.body) {
                    (Some(d), Some(binding), Some(stmts)) => {
                        lemma_children_second_hook(
                            s,
                            k + 1,
                            before,
                            after,
                            acc.push(
                                ChildModel::Bench(
                                    BenchItemModel {
                                        description: d,
                                        bencher_binding: binding,
                                        body: stmts,
                                    },
                                ),
                            ),
                            i,
                            j,
                            hook_is_before,
                        );
                    },
                    _ => {},
                }
            },
        }
    }
}

/// A second `before_each` — or a second `after_each` — among one group's
/// children is always rejected, wherever the two blocks stand among the
/// other children.
pub proof fn lemma_duplicate_hook_rejected(b: RawBlockModel, i: int, j: int)
    requires
        0 <= i < j < b.children.len(),
        (b.children[i].kw == Keyword::BeforeEach && b.children[j].kw == Keyword::BeforeEach) || (
        b.children[i].kw == Keyword::AfterEach && b.children[j].kw == Keyword::AfterEach),
    ensures
        build_group_model(b) is Err,
{
    if b.kw == Keyword::Describe && b.name is Some {
        lemma_children_second_hook(
            b.children,
            0,
            None,
            None,
            Seq::empty(),
            i,
            j,
            b.children[i].kw == Keyword::BeforeEach,
        );
    }
}

} // verus!
