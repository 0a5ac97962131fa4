//! The link structure of a chain, as a function of the directions of its
//! handlers: which position an event fired at a position visits next.

use vstd::prelude::*;
use super::handler::HandlerDir;

verus! {

/// A link as a mathematical position.
pub open spec fn link(l: Option<usize>) -> Option<int> {
    match l {
        Some(j) => Some(j as int),
        None => None,
    }
}

/// The nearest position after `from` whose handler takes inbound events.
pub open spec fn next_inbound(dirs: Seq<HandlerDir>, from: int) -> Option<int>
    decreases dirs.len() - from,
{
    if from + 1 >= dirs.len() {
        None
    } else if from + 1 >= 0 && dirs[from + 1].inbound() {
        Some(from + 1)
    } else {
        next_inbound(dirs, from + 1)
    }
}

/// The nearest position before `from` whose handler takes outbound events.
pub open spec fn prev_outbound(dirs: Seq<HandlerDir>, from: int) -> Option<int>
    decreases from,
{
    if from <= 0 {
        None
    } else if from - 1 < dirs.len() && dirs[from - 1].outbound() {
        Some(from - 1)
    } else {
        prev_outbound(dirs, from - 1)
    }
}

/// The position that an inbound event entering at the head visits first.
pub open spec fn head_inbound(dirs: Seq<HandlerDir>) -> Option<int> {
    next_inbound(dirs, -1)
}

/// The position that an outbound event entering at the tail visits first.
pub open spec fn tail_outbound(dirs: Seq<HandlerDir>) -> Option<int> {
    prev_outbound(dirs, dirs.len() as int)
}

/// The inbound link of position `i`: the next inbound position if the
/// handler at `i` takes inbound events itself, and no link otherwise.
pub open spec fn inbound_link(dirs: Seq<HandlerDir>, i: int) -> Option<int> {
    if 0 <= i < dirs.len() && dirs[i].inbound() {
        next_inbound(dirs, i)
    } else {
        None
    }
}

/// The outbound link of position `i`: the previous outbound position if the
/// handler at `i` takes outbound events itself, and no link otherwise.
pub open spec fn outbound_link(dirs: Seq<HandlerDir>, i: int) -> Option<int> {
    if 0 <= i < dirs.len() && dirs[i].outbound() {
        prev_outbound(dirs, i)
    } else {
        None
    }
}

/// A chain as the walk of an event sees it: the directions of its handlers
/// in pipeline order, and whether the links between them have been made.
/// Before they are made no position has a link and the chain has no entry.
pub struct Chain {
    pub wired: bool,
    pub dirs: Seq<HandlerDir>,
}

impl Chain {
    /// The inbound link of position `i`.
    pub open spec fn next_in(self, i: int) -> Option<int> {
        if self.wired {
            inbound_link(self.dirs, i)
        } else {
            None
        }
    }

    /// The outbound link of position `i`.
    pub open spec fn next_out(self, i: int) -> Option<int> {
        if self.wired {
            outbound_link(self.dirs, i)
        } else {
            None
        }
    }

    /// The position that an inbound event entering at the head visits first.
    pub open spec fn head(self) -> Option<int> {
        if self.wired {
            head_inbound(self.dirs)
        } else {
            None
        }
    }

    /// The position that an outbound event entering at the tail visits
    /// first.
    pub open spec fn tail(self) -> Option<int> {
        if self.wired {
            tail_outbound(self.dirs)
        } else {
            None
        }
    }
}

/// `next_inbound` finds an inbound position after `from`, and none lies
/// between the two; where it finds nothing, there is none after `from`.
pub proof fn lemma_next_inbound(dirs: Seq<HandlerDir>, from: int)
    requires
        from >= -1,
    ensures
        match next_inbound(dirs, from) {
            Some(j) => from < j < dirs.len() && dirs[j].inbound() && forall|k: int|
                from < k < j ==> !(#[trigger] dirs[k]).inbound(),
            None => forall|k: int| from < k < dirs.len() ==> !(#[trigger] dirs[k]).inbound(),
        },
    decreases dirs.len() - from,
{
    if from + 1 >= dirs.len() {
    } else if dirs[from + 1].inbound() {
    } else {
        lemma_next_inbound(dirs, from + 1);
    }
}

/// An inbound position `j` after `from` with no inbound position between
/// them is the one that `next_inbound` finds.
pub proof fn lemma_next_inbound_is(dirs: Seq<HandlerDir>, from: int, j: int)
    requires
        -1 <= from < j < dirs.len(),
        dirs[j].inbound(),
        forall|k: int| from < k < j ==> !(#[trigger] dirs[k]).inbound(),
    ensures
        next_inbound(dirs, from) == Some(j),
    decreases j - from,
{
    if from + 1 < j {
        lemma_next_inbound_is(dirs, from + 1, j);
    }
}

/// Where no inbound position lies after `from`, `next_inbound` finds none.
pub proof fn lemma_next_inbound_none(dirs: Seq<HandlerDir>, from: int)
    requires
        from >= -1,
        forall|k: int| from < k < dirs.len() ==> !(#[trigger] dirs[k]).inbound(),
    ensures
        next_inbound(dirs, from) is None,
    decreases dirs.len() - from,
{
    if from + 1 < dirs.len() {
        lemma_next_inbound_none(dirs, from + 1);
    }
}

/// `prev_outbound` finds an outbound position before `from`, and none lies
/// between the two; where it finds nothing, there is none before `from`.
pub proof fn lemma_prev_outbound(dirs: Seq<HandlerDir>, from: int)
    requires
        from <= dirs.len(),
    ensures
        match prev_outbound(dirs, from) {
            Some(j) => 0 <= j < from && dirs[j].outbound() && forall|k: int|
                j < k < from ==> !(#[trigger] dirs[k]).outbound(),
            None => forall|k: int| 0 <= k < from ==> !(#[trigger] dirs[k]).outbound(),
        },
    decreases from,
{
    if from <= 0 {
    } else if dirs[from - 1].outbound() {
    } else {
        lemma_prev_outbound(dirs, from - 1);
    }
}

/// An outbound position `j` before `from` with no outbound position between
/// them is the one that `prev_outbound` finds.
pub proof fn lemma_prev_outbound_is(dirs: Seq<HandlerDir>, from: int, j: int)
    requires
        0 <= j < from <= dirs.len(),
        dirs[j].outbound(),
        forall|k: int| j < k < from ==> !(#[trigger] dirs[k]).outbound(),
    ensures
        prev_outbound(dirs, from) == Some(j),
    decreases from - j,
{
    if j < from - 1 {
        lemma_prev_outbound_is(dirs, from - 1, j);
    }
}

/// Where no outbound position lies before `from`, `prev_outbound` finds none.
pub proof fn lemma_prev_outbound_none(dirs: Seq<HandlerDir>, from: int)
    requires
        from <= dirs.len(),
        forall|k: int| 0 <= k < from ==> !(#[trigger] dirs[k]).outbound(),
    ensures
        prev_outbound(dirs, from) is None,
    decreases from,
{
    if from > 0 {
        lemma_prev_outbound_none(dirs, from - 1);
    }
}

/// The links of a chain lead onward and never back: the inbound link of a
/// position is the nearest later position that takes inbound events, the
/// outbound link the nearest earlier position that takes outbound events.
/// So no walk along the links comes to a position twice.
pub proof fn lemma_links_lead_onward(chain: Chain, i: int)
    requires
        0 <= i < chain.dirs.len(),
    ensures
        match chain.next_in(i) {
            Some(j) => chain.wired && chain.dirs[i].inbound() && i < j < chain.dirs.len()
                && chain.dirs[j].inbound() && forall|k: int|
                i < k < j ==> !(#[trigger] chain.dirs[k]).inbound(),
            None => !chain.wired || !chain.dirs[i].inbound() || forall|k: int|
                i < k < chain.dirs.len() ==> !(#[trigger] chain.dirs[k]).inbound(),
        },
        match chain.next_out(i) {
            Some(j) => chain.wired && chain.dirs[i].outbound() && 0 <= j < i
                && chain.dirs[j].outbound() && forall|k: int|
                j < k < i ==> !(#[trigger] chain.dirs[k]).outbound(),
            None => !chain.wired || !chain.dirs[i].outbound() || forall|k: int|
                0 <= k < i ==> !(#[trigger] chain.dirs[k]).outbound(),
        },
{
    lemma_next_inbound(chain.dirs, i);
    lemma_prev_outbound(chain.dirs, i);
}

/// The first position at or after `start` whose handler takes inbound
/// events.
pub fn first_inbound_from(dirs: &Vec<HandlerDir>, start: usize) -> (found: Option<usize>)
    ensures
        link(found) == next_inbound(dirs@, start - 1),
{
    let mut i: usize = start;
    while i < dirs.len()
        invariant
            start <= i,
            forall|k: int| start <= k < i && k < dirs.len() ==> !(#[trigger] dirs@[k]).inbound(),
        decreases dirs.len() - i,
    {
        if dirs[i].is_inbound() {
            proof {
                lemma_next_inbound_is(dirs@, start - 1, i as int);
            }
            return Some(i);
        }
        i = i + 1;
    }
    proof {
        lemma_next_inbound_none(dirs@, start - 1);
    }
    None
}

/// The last position before `end` whose handler takes outbound events.
pub fn last_outbound_before(dirs: &Vec<HandlerDir>, end: usize) -> (found: Option<usize>)
    requires
        end <= dirs.len(),
    ensures
        link(found) == prev_outbound(dirs@, end as int),
{
    let mut i: usize = end;
    while i > 0
        invariant
            i <= end <= dirs.len(),
            forall|k: int| i <= k < end ==> !(#[trigger] dirs@[k]).outbound(),
        decreases i,
    {
        i = i - 1;
        if dirs[i].is_outbound() {
            proof {
                lemma_prev_outbound_is(dirs@, end as int, i as int);
            }
            return Some(i);
        }
    }
    proof {
        lemma_prev_outbound_none(dirs@, end as int);
    }
    None
}

/// A table of `n` absent links.
fn no_links(n: usize) -> (links: Vec<Option<usize>>)
    ensures
        links.len() == n,
        forall|k: int| 0 <= k < n ==> links[k] is None,
{
    let mut links: Vec<Option<usize>> = Vec::new();
    while links.len() < n
        invariant
            links.len() <= n,
            forall|k: int| 0 <= k < links.len() ==> links[k] is None,
        decreases n - links.len(),
    {
        links.push(None);
    }
    links
}

/// The inbound pass of the assembly, from head to tail: every position that
/// takes inbound events is linked to the nearest such position after it.
pub fn inbound_links(dirs: &Vec<HandlerDir>) -> (links: Vec<Option<usize>>)
    ensures
        links.len() == dirs.len(),
        forall|i: int| 0 <= i < dirs.len() ==> link(#[trigger] links[i]) == inbound_link(dirs@, i),
{
    let n: usize = dirs.len();
    let mut links: Vec<Option<usize>> = no_links(n);
    let mut last: Option<usize> = None;
    let mut i: usize = 0;
    while i < n
        invariant
            n == dirs.len(),
            links.len() == n,
            i <= n,
            match last {
                Some(p) => p < i && dirs@[p as int].inbound() && forall|k: int|
                    p < k < i ==> !(#[trigger] dirs@[k]).inbound(),
                None => forall|k: int| 0 <= k < i ==> !(#[trigger] dirs@[k]).inbound(),
            },
            forall|k: int|
                0 <= k < n && last != Some(k as usize) && k < i ==> link(#[trigger] links[k])
                    == inbound_link(dirs@, k),
            forall|k: int| 0 <= k < n && (last == Some(k as usize) || k >= i) ==> (
            #[trigger] links[k]) is None,
        decreases n - i,
    {
        if dirs[i].is_inbound() {
            match last {
                Some(p) => {
                    proof {
                        lemma_next_inbound_is(dirs@, p as int, i as int);
                    }
                    links.set(p, Some(i));
                },
                None => {},
            }
            last = Some(i);
        }
        i = i + 1;
    }
    proof {
        match last {
            Some(p) => {
                lemma_next_inbound_none(dirs@, p as int);
            },
            None => {},
        }
    }
    links
}

/// The outbound pass of the assembly, from tail to head: every position that
/// takes outbound events is linked to the nearest such position before it.
pub fn outbound_links(dirs: &Vec<HandlerDir>) -> (links: Vec<Option<usize>>)
    ensures
        links.len() == dirs.len(),
        forall|i: int|
            0 <= i < dirs.len() ==> link(#[trigger] links[i]) == outbound_link(dirs@, i),
{
    let n: usize = dirs.len();
    let mut links: Vec<Option<usize>> = no_links(n);
    let mut last: Option<usize> = None;
    let mut i: usize = n;
    while i > 0
        invariant
            n == dirs.len(),
            links.len() == n,
            i <= n,
            match last {
                Some(p) => i <= p < n && dirs@[p as int].outbound() && forall|k: int|
                    i <= k < p ==> !(#[trigger] dirs@[k]).outbound(),
                None => forall|k: int| i <= k < n ==> !(#[trigger] dirs@[k]).outbound(),
            },
            forall|k: int|
                0 <= k < n && last != Some(k as usize) && k >= i ==> link(#[trigger] links[k])
                    == outbound_link(dirs@, k),
            forall|k: int| 0 <= k < n && (last == Some(k as usize) || k < i) ==> (
            #[trigger] links[k]) is None,
        decreases i,
    {
        i = i - 1;
        if dirs[i].is_outbound() {
            match last {
                Some(p) => {
                    proof {
                        lemma_prev_outbound_is(dirs@, p as int, i as int);
                    }
                    links.set(p, Some(i));
                },
                None => {},
            }
            last = Some(i);
        }
    }
    proof {
        match last {
            Some(p) => {
                lemma_prev_outbound_none(dirs@, p as int);
            },
            None => {},
        }
    }
    links
}

} // verus!
