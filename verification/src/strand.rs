use vstd::prelude::*;

verus! {

/// One strand of a chain hung from the player, by its place in the chain.
#[derive(Clone, Copy, Debug, PartialEq, Eq, Structural)]
pub struct StrandLink {
    /// The sprite layer group drawn for the strand.
    pub layer_index: usize,
    /// The strand rests on the ground below it.
    pub physics: bool,
    /// The strand's place in the update order.
    pub priority: u32,
    /// The strand it hangs from, by its place in the chain; `None` for the player.
    pub connect: Option<usize>,
    /// The strand is the chain's root: it hangs from the player at the player's offset, with no
    /// slack.
    pub root: bool,
}

/// Lays out a chain of strands from its list of (layer group, rests on the ground) entries: each
/// strand hangs from the one before it, the first from the player, and they update in chain
/// order.
pub fn plan_strand_chain(order: &Vec<(usize, bool)>) -> (links: Vec<StrandLink>)
    requires
        order.len() <= u32::MAX + 1,
    ensures
        links.len() == order.len(),
        forall|i: int|
            0 <= i < order.len() ==> #[trigger] links@[i] == (StrandLink {
                layer_index: order@[i].0,
                physics: order@[i].1,
                priority: i as u32,
                connect: if i == 0 { None } else { Some((i - 1) as usize) },
                root: i == 0,
            }),
{
    let mut links: Vec<StrandLink> = Vec::new();
    let mut i: usize = 0;
    while i < order.len()
        invariant
            order.len() <= u32::MAX + 1,
            0 <= i <= order.len(),
            links.len() == i,
            forall|k: int|
                0 <= k < i ==> #[trigger] links@[k] == (StrandLink {
                    layer_index: order@[k].0,
                    physics: order@[k].1,
                    priority: k as u32,
                    connect: if k == 0 { None } else { Some((k - 1) as usize) },
                    root: k == 0,
                }),
        decreases order.len() - i,
    {
        let (layer_index, physics) = order[i];
        let connect = if i == 0 { None } else { Some(i - 1) };
        links.push(StrandLink { layer_index, physics, priority: i as u32, connect, root: i == 0 });
        i = i + 1;
    }
    links
}

/// Strand `x` updates before strand `y`: a lower priority, or the same priority and listed first.
pub open spec fn updates_before(priorities: Seq<u32>, x: int, y: int) -> bool {
    priorities[x] < priorities[y] || (priorities[x] == priorities[y] && x < y)
}

/// The order in which strands update: every strand once, by priority, strands of equal priority
/// in the order listed.
pub fn strand_update_order(priorities: &Vec<u32>) -> (order: Vec<usize>)
    ensures
        order.len() == priorities.len(),
        forall|k: int| 0 <= k < order.len() ==> #[trigger] order@[k] < priorities.len(),
        forall|x: usize| x < priorities.len() ==> #[trigger] order@.contains(x),
        forall|a: int, b: int|
            0 <= a < b < order.len() ==> #[trigger] updates_before(priorities@, order@[a] as int, order@[b] as int),
{
    let n = priorities.len();
    let mut order: Vec<usize> = Vec::new();
    let mut i: usize = 0;
    while i < n
        invariant
            n == priorities.len(),
            0 <= i <= n,
            order.len() == i,
            forall|k: int| 0 <= k < order.len() ==> #[trigger] order@[k] < i,
            forall|x: usize| x < i ==> #[trigger] order@.contains(x),
            forall|a: int, b: int|
                0 <= a < b < order.len() ==> #[trigger] updates_before(priorities@, order@[a] as int, order@[b] as int),
        decreases n - i,
    {
        let mut pos: usize = 0;
        while pos < order.len() && priorities[order[pos]] <= priorities[i]
            invariant
                n == priorities.len(),
                0 <= i < n,
                order.len() == i,
                0 <= pos <= order.len(),
                forall|k: int| 0 <= k < order.len() ==> #[trigger] order@[k] < i,
                forall|a: int| 0 <= a < pos ==> priorities@[#[trigger] order@[a] as int] <= priorities@[i as int],
            decreases order.len() - pos,
        {
            pos = pos + 1;
        }
        let ghost old_order = order@;
        proof {
            if pos < old_order.len() {
                assert(priorities@[i as int] < priorities@[old_order[pos as int] as int]);
            }
        }
        order.insert(pos, i);
        proof {
            assert forall|a: int, b: int| 0 <= a < b < order.len() implies #[trigger] updates_before(priorities@, order@[a] as int, order@[b] as int) by {
                if b < pos {
                    assert(order@[a] == old_order[a] && order@[b] == old_order[b]);
                } else if b == pos {
                    assert(order@[a] == old_order[a]);
                } else if a < pos {
                    assert(order@[a] == old_order[a] && order@[b] == old_order[b - 1]);
                    if b - 1 > pos {
                        assert(updates_before(priorities@, old_order[pos as int] as int, old_order[b - 1] as int));
                    }
                } else if a == pos {
                    assert(order@[b] == old_order[b - 1]);
                    if b - 1 > pos {
                        assert(updates_before(priorities@, old_order[pos as int] as int, old_order[b - 1] as int));
                    }
                } else {
                    assert(order@[a] == old_order[a - 1] && order@[b] == old_order[b - 1]);
                }
            }
            assert forall|x: usize| x < i + 1 implies #[trigger] order@.contains(x) by {
                if x == i {
                    assert(order@[pos as int] == x);
                } else {
                    assert(old_order.contains(x));
                    let k = choose|k: int| 0 <= k < old_order.len() && #[trigger] old_order[k] == x;
                    if k < pos {
                        assert(order@[k] == x);
                    } else {
                        assert(order@[k + 1] == x);
                    }
                }
            }
        }
        i = i + 1;
    }
    order
}

} // verus!
