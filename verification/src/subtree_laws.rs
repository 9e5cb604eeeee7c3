//! What the listing of a subtree holds: the block, everything below it and
//! nothing else, each parent before its children.

use crate::error::ToolError;
use crate::flows::subtree_of;
use crate::plan::raw_walk;
use crate::projection::{raw_find, raw_find_facts, RawBlockV, RawV, MAX_BODY_BLOCKS};
use vstd::prelude::*;

verus! {

/// A stacked identifier is listed before what is stacked below it, and the walk
/// needs as much fuel as it lists blocks.
proof fn walk_needs_its_length(blocks: Seq<RawBlockV>, stack: Seq<Seq<char>>, fuel: nat, more: nat)
    requires
        raw_walk(blocks, stack, fuel) is Ok,
        more >= (raw_walk(blocks, stack, fuel)->Ok_0).len(),
    ensures
        raw_walk(blocks, stack, more) == raw_walk(blocks, stack, fuel),
        (raw_walk(blocks, stack, fuel)->Ok_0).len() <= fuel,
    decreases fuel,
{
    if stack.len() > 0 {
        let i = raw_find(blocks, stack.last())->0;
        let next = stack.drop_last() + blocks[i].children.reverse();
        let rest = raw_walk(blocks, next, (fuel - 1) as nat)->Ok_0;
        assert(raw_walk(blocks, stack, fuel)->Ok_0 == seq![stack.last()] + rest);
        walk_needs_its_length(blocks, next, (fuel - 1) as nat, (more - 1) as nat);
    }
}

/// What is on top of a stack is walked first, then what is below.
proof fn walk_splits(
    blocks: Seq<RawBlockV>,
    below: Seq<Seq<char>>,
    above: Seq<Seq<char>>,
    fuel: nat,
)
    requires
        raw_walk(blocks, below + above, fuel) is Ok,
    ensures
        raw_walk(blocks, above, fuel) is Ok,
        raw_walk(blocks, below, fuel) is Ok,
        raw_walk(blocks, below + above, fuel)->Ok_0 == raw_walk(blocks, above, fuel)->Ok_0
            + raw_walk(blocks, below, fuel)->Ok_0,
    decreases fuel,
{
    let whole = raw_walk(blocks, below + above, fuel)->Ok_0;
    if above.len() == 0 {
        assert(below + above =~= below);
        assert(Seq::<Seq<char>>::empty() + whole =~= whole);
    } else {
        let top = above.last();
        assert((below + above).last() == top);
        let i = raw_find(blocks, top)->0;
        let kids = blocks[i].children.reverse();
        assert((below + above).drop_last() + kids =~= below + (above.drop_last() + kids));
        walk_splits(blocks, below, above.drop_last() + kids, (fuel - 1) as nat);
        let first = raw_walk(blocks, above.drop_last() + kids, (fuel - 1) as nat)->Ok_0;
        let rest = raw_walk(blocks, below, (fuel - 1) as nat)->Ok_0;
        walk_needs_its_length(blocks, below, (fuel - 1) as nat, rest.len());
        walk_needs_its_length(blocks, below, (fuel - 1) as nat, fuel);
        assert(seq![top] + (first + rest) =~= (seq![top] + first) + rest);
    }
}

/// The subtrees of the first `n` children, one after another.
pub open spec fn subtrees_of(
    blocks: Seq<RawBlockV>,
    children: Seq<Seq<char>>,
    n: int,
    fuel: nat,
) -> Seq<Seq<char>>
    decreases n,
{
    if n <= 0 {
        Seq::empty()
    } else {
        subtrees_of(blocks, children, n - 1, fuel) + raw_walk(
            blocks,
            seq![children[n - 1]],
            fuel,
        )->Ok_0
    }
}

proof fn subtrees_of_prefix(
    blocks: Seq<RawBlockV>,
    children: Seq<Seq<char>>,
    n: int,
    fuel: nat,
)
    requires
        0 <= n < children.len(),
    ensures
        subtrees_of(blocks, children, n, fuel) == subtrees_of(
            blocks,
            children.drop_last(),
            n,
            fuel,
        ),
    decreases n,
{
    if n > 0 {
        subtrees_of_prefix(blocks, children, n - 1, fuel);
        assert(children.drop_last()[n - 1] == children[n - 1]);
    }
}

proof fn children_are_walked_in_order(
    blocks: Seq<RawBlockV>,
    children: Seq<Seq<char>>,
    fuel: nat,
)
    requires
        raw_walk(blocks, children.reverse(), fuel) is Ok,
    ensures
        raw_walk(blocks, children.reverse(), fuel)->Ok_0 == subtrees_of(
            blocks,
            children,
            children.len() as int,
            fuel,
        ),
        forall|k: int|
            0 <= k < children.len() ==> raw_walk(
                blocks,
                seq![#[trigger] children[k]],
                fuel,
            ) is Ok,
    decreases children.len(),
{
    if children.len() > 0 {
        let last = seq![children.last()];
        let front = children.drop_last();
        assert(children.reverse() =~= last + front.reverse());
        walk_splits(blocks, last, front.reverse(), fuel);
        children_are_walked_in_order(blocks, front, fuel);
        subtrees_of_prefix(blocks, children, children.len() - 1, fuel);
        assert forall|k: int| 0 <= k < children.len() implies raw_walk(
            blocks,
            seq![#[trigger] children[k]],
            fuel,
        ) is Ok by {
            if k < children.len() - 1 {
                assert(front[k] == children[k]);
            }
        }
    } else {
        assert(children.reverse().len() == 0);
    }
}

/// The subtree of a block is the block, followed by the subtrees of its children,
/// whole and in their order.
pub proof fn subtree_is_a_block_and_its_childrens_subtrees(raw: RawV, id: Seq<char>)
    requires
        subtree_of(raw, id) is Ok,
    ensures
        exists|i: int|
            0 <= i < raw.blocks.len() && (#[trigger] raw.blocks[i]).id == id && {
                let children = raw.blocks[i].children;
                &&& subtree_of(raw, id)->Ok_0 == seq![id] + subtrees_of(
                    raw.blocks,
                    children,
                    children.len() as int,
                    MAX_BODY_BLOCKS as nat,
                )
                &&& forall|k: int|
                    0 <= k < children.len() ==> subtree_of(raw, #[trigger] children[k]) is Ok
            },
{
    let blocks = raw.blocks;
    let fuel = MAX_BODY_BLOCKS as nat;
    let stack = seq![id];
    assert(stack.last() == id);
    raw_find_facts(blocks, id, 0);
    let i = raw_find(blocks, id)->0;
    let children = blocks[i].children;
    assert(stack.drop_last() + children.reverse() =~= children.reverse());
    let rest = raw_walk(blocks, children.reverse(), (fuel - 1) as nat);
    assert(rest is Ok);
    walk_needs_its_length(blocks, children.reverse(), (fuel - 1) as nat, (rest->Ok_0).len());
    walk_needs_its_length(blocks, children.reverse(), (fuel - 1) as nat, fuel);
    children_are_walked_in_order(blocks, children, fuel);
    assert(blocks[i].id == id);
    assert forall|k: int| 0 <= k < children.len() implies subtree_of(
        raw,
        #[trigger] children[k],
    ) is Ok by {
        assert(raw_walk(blocks, seq![children[k]], fuel) is Ok);
    }
}

/// The block under an identifier names `child` as a child.
pub open spec fn is_child_of(blocks: Seq<RawBlockV>, child: Seq<char>, parent: Seq<char>) -> bool {
    exists|i: int|
        0 <= i < blocks.len() && (#[trigger] blocks[i]).id == parent && blocks[i].children.contains(
            child,
        )
}

proof fn walk_is_closed(blocks: Seq<RawBlockV>, stack: Seq<Seq<char>>, fuel: nat)
    requires
        raw_walk(blocks, stack, fuel) is Ok,
    ensures
        ({
            let found = raw_walk(blocks, stack, fuel)->Ok_0;
            &&& forall|k: int| 0 <= k < stack.len() ==> found.contains(#[trigger] stack[k])
            &&& forall|k: int|
                0 <= k < found.len() ==> (raw_find(blocks, #[trigger] found[k]) matches Some(i)
                    && forall|c: int|
                    0 <= c < blocks[i].children.len() ==> found.contains(
                        #[trigger] blocks[i].children[c],
                    ))
            &&& forall|k: int|
                0 <= k < found.len() ==> stack.contains(#[trigger] found[k]) || exists|j: int|
                    0 <= j < k && is_child_of(blocks, found[k], #[trigger] found[j])
        }),
    decreases fuel,
{
    let found = raw_walk(blocks, stack, fuel)->Ok_0;
    if stack.len() > 0 {
        let top = stack.last();
        raw_find_facts(blocks, top, 0);
        let i = raw_find(blocks, top)->0;
        let kids = blocks[i].children;
        let next = stack.drop_last() + kids.reverse();
        let rest = raw_walk(blocks, next, (fuel - 1) as nat)->Ok_0;
        walk_is_closed(blocks, next, (fuel - 1) as nat);
        assert(found == seq![top] + rest);
        assert(found[0] == top);
        assert forall|x: Seq<char>| rest.contains(x) implies found.contains(x) by {
            let k = choose|k: int| 0 <= k < rest.len() && rest[k] == x;
            assert(found[k + 1] == x);
        }
        assert forall|k: int| 0 <= k < stack.len() implies found.contains(#[trigger] stack[k]) by {
            if k < stack.len() - 1 {
                assert(next[k] == stack[k]);
            }
        }
        assert forall|c: int| 0 <= c < kids.len() implies found.contains(#[trigger] kids[c]) by {
            let k = stack.len() - 1 + (kids.len() - 1 - c);
            assert(next[k] == kids[c]);
        }
        assert forall|k: int| 0 <= k < found.len() implies (raw_find(
            blocks,
            #[trigger] found[k],
        ) matches Some(at) && forall|c: int|
            0 <= c < blocks[at].children.len() ==> found.contains(
                #[trigger] blocks[at].children[c],
            )) by {
            if k > 0 {
                assert(found[k] == rest[k - 1]);
            }
        }
        assert forall|k: int| 0 <= k < found.len() implies stack.contains(#[trigger] found[k])
            || exists|j: int| 0 <= j < k && is_child_of(blocks, found[k], #[trigger] found[j]) by {
            if k > 0 {
                assert(found[k] == rest[k - 1]);
                if next.contains(rest[k - 1]) {
                    let n = choose|n: int| 0 <= n < next.len() && next[n] == rest[k - 1];
                    if n < stack.len() - 1 {
                        assert(stack[n] == found[k]);
                    } else {
                        let c = kids.len() - 1 - (n - (stack.len() - 1));
                        assert(kids[c] == found[k]);
                        assert(blocks[i].id == top);
                        assert(is_child_of(blocks, found[k], found[0]));
                    }
                } else {
                    let j = choose|j: int|
                        0 <= j < k - 1 && is_child_of(blocks, rest[k - 1], #[trigger] rest[j]);
                    assert(found[j + 1] == rest[j]);
                }
            } else {
                assert(stack[stack.len() - 1] == found[0]);
            }
        }
    }
}

/// The subtree of a block starts with the block, holds every child of every block
/// that it holds, and holds nothing else: what is not the first is a child of an
/// earlier one.
pub proof fn subtree_is_closed_under_children(raw: RawV, id: Seq<char>)
    requires
        subtree_of(raw, id) is Ok,
    ensures
        ({
            let found = subtree_of(raw, id)->Ok_0;
            &&& found.len() > 0
            &&& found[0] == id
            &&& found.len() <= MAX_BODY_BLOCKS
            &&& forall|k: int, i: int, c: int|
                0 <= k < found.len() && raw_find(raw.blocks, #[trigger] found[k]) == Some(i) && 0
                    <= c < raw.blocks[i].children.len() ==> found.contains(
                    #[trigger] raw.blocks[i].children[c],
                )
            &&& forall|k: int|
                0 <= k < found.len() ==> exists|i: int|
                    0 <= i < raw.blocks.len() && (#[trigger] raw.blocks[i]).id
                        == #[trigger] found[k]
            &&& forall|k: int|
                0 < k < found.len() ==> exists|j: int|
                    0 <= j < k && is_child_of(raw.blocks, #[trigger] found[k], #[trigger] found[j])
        }),
{
    let found = subtree_of(raw, id)->Ok_0;
    let stack = seq![id];
    let fuel = MAX_BODY_BLOCKS as nat;
    walk_is_closed(raw.blocks, stack, fuel);
    walk_needs_its_length(raw.blocks, stack, fuel, found.len());
    assert(stack.last() == id);
    assert forall|k: int, i: int, c: int|
        0 <= k < found.len() && raw_find(raw.blocks, #[trigger] found[k]) == Some(i) && 0 <= c
            < raw.blocks[i].children.len() implies found.contains(
        #[trigger] raw.blocks[i].children[c],
    ) by {
        assert(raw_find(raw.blocks, found[k]) == Some(i));
    }
    assert forall|k: int| 0 <= k < found.len() implies exists|i: int|
        0 <= i < raw.blocks.len() && (#[trigger] raw.blocks[i]).id == #[trigger] found[k] by {
        raw_find_facts(raw.blocks, found[k], 0);
        let i = raw_find(raw.blocks, found[k])->0;
        assert(raw.blocks[i].id == found[k]);
    }
    assert forall|k: int| 0 < k < found.len() implies exists|j: int|
        0 <= j < k && is_child_of(raw.blocks, #[trigger] found[k], #[trigger] found[j]) by {
        subtree_tail_is_below(raw, id, k);
    }
}

/// What follows the first block of a subtree is a child of an earlier one.
proof fn subtree_tail_is_below(raw: RawV, id: Seq<char>, k: int)
    requires
        subtree_of(raw, id) is Ok,
        0 < k < (subtree_of(raw, id)->Ok_0).len(),
    ensures
        exists|j: int|
            0 <= j < k && is_child_of(
                raw.blocks,
                (subtree_of(raw, id)->Ok_0)[k],
                #[trigger] (subtree_of(raw, id)->Ok_0)[j],
            ),
{
    let blocks = raw.blocks;
    let fuel = MAX_BODY_BLOCKS as nat;
    let found = subtree_of(raw, id)->Ok_0;
    let stack = seq![id];
    assert(stack.last() == id);
    raw_find_facts(blocks, id, 0);
    let i = raw_find(blocks, id)->0;
    let kids = blocks[i].children;
    let next = stack.drop_last() + kids.reverse();
    let rest = raw_walk(blocks, next, (fuel - 1) as nat)->Ok_0;
    walk_is_closed(blocks, next, (fuel - 1) as nat);
    assert(found == seq![id] + rest);
    assert(found[0] == id);
    assert(found[k] == rest[k - 1]);
    if next.contains(rest[k - 1]) {
        let n = choose|n: int| 0 <= n < next.len() && next[n] == rest[k - 1];
        let c = kids.len() - 1 - n;
        assert(kids[c] == found[k]);
        assert(blocks[i].id == id);
        assert(is_child_of(blocks, found[k], found[0]));
    } else {
        let j = choose|j: int| 0 <= j < k - 1 && is_child_of(blocks, rest[k - 1], #[trigger] rest[j]);
        assert(found[j + 1] == rest[j]);
    }
}

// ---------------------------------------------------------------------------
// When a subtree can be listed
// ---------------------------------------------------------------------------

/// Every child of every block is listed, behind its parent.
pub open spec fn children_follow(blocks: Seq<RawBlockV>) -> bool {
    forall|i: int, k: int|
        0 <= i < blocks.len() && 0 <= k < blocks[i].children.len() ==> (raw_find(
            blocks,
            #[trigger] blocks[i].children[k],
        ) matches Some(c) && i < c)
}

/// Number of blocks of a subtree, of a body whose children follow their parents.
pub open spec fn subtree_size(blocks: Seq<RawBlockV>, i: int) -> int
    decreases blocks.len() - i, 1int, 0int,
{
    if i < 0 || i >= blocks.len() {
        0
    } else {
        1 + sizes_of(blocks, i, blocks[i].children.len() as int)
    }
}

/// Number of blocks below the first `n` children of block `i`.
pub open spec fn sizes_of(blocks: Seq<RawBlockV>, i: int, n: int) -> int
    decreases blocks.len() - i, 0int, n,
{
    if n <= 0 {
        0
    } else {
        sizes_of(blocks, i, n - 1) + match raw_find(blocks, blocks[i].children[n - 1]) {
            Some(c) => if i < c < blocks.len() {
                subtree_size(blocks, c)
            } else {
                0
            },
            None => 0,
        }
    }
}

/// Number of blocks below everything on a stack of listed identifiers.
spec fn stack_size(blocks: Seq<RawBlockV>, stack: Seq<Seq<char>>) -> int
    decreases stack.len(),
{
    if stack.len() == 0 {
        0
    } else {
        stack_size(blocks, stack.drop_last()) + subtree_size(
            blocks,
            raw_find(blocks, stack.last())->0,
        )
    }
}

proof fn stack_size_adds(blocks: Seq<RawBlockV>, a: Seq<Seq<char>>, b: Seq<Seq<char>>)
    ensures
        stack_size(blocks, a + b) == stack_size(blocks, a) + stack_size(blocks, b),
    decreases b.len(),
{
    if b.len() > 0 {
        assert((a + b).drop_last() =~= a + b.drop_last());
        assert((a + b).last() == b.last());
        stack_size_adds(blocks, a, b.drop_last());
    } else {
        assert(a + b =~= a);
    }
}

proof fn reversed_children_weigh_the_same(blocks: Seq<RawBlockV>, i: int, n: int)
    requires
        children_follow(blocks),
        0 <= i < blocks.len(),
        0 <= n <= blocks[i].children.len(),
    ensures
        stack_size(blocks, blocks[i].children.take(n).reverse()) == sizes_of(blocks, i, n),
    decreases n,
{
    let kids = blocks[i].children;
    if n > 0 {
        reversed_children_weigh_the_same(blocks, i, n - 1);
        let first = seq![kids[n - 1]];
        assert(kids.take(n).reverse() =~= first + kids.take(n - 1).reverse());
        stack_size_adds(blocks, first, kids.take(n - 1).reverse());
        assert(first.drop_last() =~= Seq::<Seq<char>>::empty());
        assert(first.last() == kids[n - 1]);
        assert(stack_size(blocks, first.drop_last()) == 0);
        raw_find_facts(blocks, kids[n - 1], 0);
    } else {
        assert(kids.take(0).reverse().len() == 0);
    }
}

proof fn size_is_positive(blocks: Seq<RawBlockV>, i: int, n: int)
    requires
        0 <= i < blocks.len(),
    ensures
        sizes_of(blocks, i, n) >= 0,
    decreases blocks.len() - i, 0int, n,
{
    if n > 0 {
        size_is_positive(blocks, i, n - 1);
        if let Some(c) = raw_find(blocks, blocks[i].children[n - 1]) {
            if i < c < blocks.len() {
                size_is_positive(blocks, c, blocks[c].children.len() as int);
                assert(subtree_size(blocks, c) == 1 + sizes_of(
                    blocks,
                    c,
                    blocks[c].children.len() as int,
                ));
            }
        }
    }
}

proof fn stack_size_is_positive(blocks: Seq<RawBlockV>, stack: Seq<Seq<char>>)
    requires
        forall|k: int| 0 <= k < stack.len() ==> raw_find(blocks, #[trigger] stack[k]) is Some,
    ensures
        stack_size(blocks, stack) >= stack.len(),
    decreases stack.len(),
{
    if stack.len() > 0 {
        assert forall|k: int| 0 <= k < stack.drop_last().len() implies raw_find(
            blocks,
            #[trigger] stack.drop_last()[k],
        ) is Some by {
            assert(stack.drop_last()[k] == stack[k]);
        }
        stack_size_is_positive(blocks, stack.drop_last());
        assert(raw_find(blocks, stack[stack.len() - 1]) is Some);
        raw_find_facts(blocks, stack.last(), 0);
        let i = raw_find(blocks, stack.last())->0;
        size_is_positive(blocks, i, blocks[i].children.len() as int);
    }
}

proof fn walk_lists_what_fits(blocks: Seq<RawBlockV>, stack: Seq<Seq<char>>, fuel: nat)
    requires
        children_follow(blocks),
        forall|k: int| 0 <= k < stack.len() ==> raw_find(blocks, #[trigger] stack[k]) is Some,
    ensures
        stack_size(blocks, stack) <= fuel ==> raw_walk(blocks, stack, fuel) is Ok && (raw_walk(
            blocks,
            stack,
            fuel,
        )->Ok_0).len() == stack_size(blocks, stack),
        stack_size(blocks, stack) > fuel ==> raw_walk(blocks, stack, fuel) == Err::<
            Seq<Seq<char>>,
            ToolError,
        >(ToolError::BoundedResult),
    decreases fuel,
{
    stack_size_is_positive(blocks, stack);
    if stack.len() > 0 && fuel > 0 {
        let top = stack.last();
        assert(raw_find(blocks, stack[stack.len() - 1]) is Some);
        raw_find_facts(blocks, top, 0);
        let i = raw_find(blocks, top)->0;
        let kids = blocks[i].children;
        let next = stack.drop_last() + kids.reverse();
        assert forall|k: int| 0 <= k < next.len() implies raw_find(
            blocks,
            #[trigger] next[k],
        ) is Some by {
            if k < stack.len() - 1 {
                assert(next[k] == stack[k]);
            } else {
                let c = kids.len() - 1 - (k - (stack.len() - 1));
                assert(next[k] == blocks[i].children[c]);
            }
        }
        stack_size_adds(blocks, stack.drop_last(), kids.reverse());
        assert(kids.take(kids.len() as int) =~= kids);
        reversed_children_weigh_the_same(blocks, i, kids.len() as int);
        walk_lists_what_fits(blocks, next, (fuel - 1) as nat);
    }
}

/// In a body that lists every child behind its parent, the subtree of a listed
/// block is listed exactly where it has no more blocks than a body may have; then
/// the list has as many entries as the subtree has blocks. A larger one is a
/// bounded result. A block that is not listed has no subtree.
pub proof fn subtree_is_listed_where_it_fits(raw: RawV, id: Seq<char>)
    requires
        children_follow(raw.blocks),
    ensures
        match raw_find(raw.blocks, id) {
            Some(i) => {
                &&& subtree_of(raw, id) is Ok <==> subtree_size(raw.blocks, i) <= MAX_BODY_BLOCKS
                &&& subtree_of(raw, id) matches Ok(found) ==> found.len() == subtree_size(
                    raw.blocks,
                    i,
                )
                &&& subtree_of(raw, id) matches Err(error) ==> error == ToolError::BoundedResult
            },
            None => subtree_of(raw, id) == Err::<Seq<Seq<char>>, ToolError>(ToolError::Upstream),
        },
{
    let stack = seq![id];
    assert(stack.last() == id);
    if let Some(i) = raw_find(raw.blocks, id) {
        assert forall|k: int| 0 <= k < stack.len() implies raw_find(
            raw.blocks,
            #[trigger] stack[k],
        ) is Some by {
            assert(stack[k] == id);
        }
        walk_lists_what_fits(raw.blocks, stack, MAX_BODY_BLOCKS as nat);
        assert(stack.drop_last() =~= Seq::<Seq<char>>::empty());
        assert(stack_size(raw.blocks, stack.drop_last()) == 0);
    }
}

} // verus!
