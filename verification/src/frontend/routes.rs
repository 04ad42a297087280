//! Level 5's routes: from where BLOB is, over the whole map as the map
//! reads the rooms, to the nearest missing core pieces, and to the core
//! while a piece it needs is carried; which of them the panel follows, and
//! the steps it draws.

use vstd::prelude::*;
use crate::map::Step;

verus! {

/// How many of the nearest missing pieces the piece route can switch
/// between.
pub const NEAREST: usize = 3;

/// Where `v` first stands in `s`, if it does.
pub open spec fn find(s: Seq<u16>, v: u16) -> Option<int> {
    if exists|i: int| 0 <= i < s.len() && s[i] == v {
        Some(choose|i: int| 0 <= i < s.len() && s[i] == v && forall|j: int| 0 <= j < i ==> s[j] != v)
    } else {
        None
    }
}

proof fn find_at(s: Seq<u16>, v: u16, i: int)
    requires
        0 <= i < s.len(),
        s[i] == v,
        forall|j: int| 0 <= j < i ==> s[j] != v,
    ensures
        find(s, v) == Some(i),
{
    let c = choose|k: int| 0 <= k < s.len() && s[k] == v && forall|j: int| 0 <= j < k ==> s[j] != v;
    assert(c == i) by {
        if c < i {
            assert(s[c] != v);
        }
        if c > i {
            assert(s[i] != v);
        }
    }
}

/// What [`choose_route`] gives.
pub open spec fn choose_spec(ends: Seq<u16>, chosen: Option<u16>, switch: bool) -> (int, Option<u16>) {
    let found = match chosen {
        Some(c) => find(ends, c),
        None => None,
    };
    let at = match found {
        Some(i) => i,
        None => 0,
    };
    if switch && ends.len() > 1 {
        let next = (at + 1) % (ends.len() as int);
        (next, if next != 0 { Some(ends[next]) } else { None })
    } else {
        (at, if found is Some { chosen } else { None })
    }
}

fn position(ends: &[u16], v: u16) -> (r: Option<usize>)
    ensures
        match r {
            Some(i) => find(ends@, v) == Some(i as int) && i < ends@.len(),
            None => find(ends@, v) is None,
        },
{
    let mut i: usize = 0;
    while i < ends.len()
        invariant
            i <= ends@.len(),
            forall|j: int| 0 <= j < i ==> ends@[j] != v,
        decreases ends@.len() - i,
    {
        if ends[i] == v {
            proof {
                find_at(ends@, v, i as int);
            }
            return Some(i);
        }
        i = i + 1;
    }
    None
}

/// Which of the nearest pieces' rooms `ends` the piece route leads to, and
/// the room to remember as chosen. The room `chosen` stays chosen while it
/// is among them; gone, the route goes back to the nearest. A `switch`
/// moves to the next, and from the last back to the nearest, which is no
/// choice: the route then follows whichever piece is nearest.
pub fn choose_route(ends: &[u16], chosen: Option<u16>, switch: bool) -> (r: (usize, Option<u16>))
    ensures
        (r.0 as int, r.1) == choose_spec(ends@, chosen, switch),
{
    let found = match chosen {
        Some(c) => position(ends, c),
        None => None,
    };
    let at: usize = match found {
        Some(i) => i,
        None => 0,
    };
    if switch && ends.len() > 1 {
        let next = (at + 1) % ends.len();
        (next, if next != 0 { Some(ends[next]) } else { None })
    } else {
        (at, if found.is_some() { chosen } else { None })
    }
}

/// The steps a route walks from `here`, as pairs of rooms; teleporter jumps
/// are left out.
pub open spec fn walked(here: u16, route: Seq<Step>) -> Seq<(u16, u16)>
    decreases route.len(),
{
    if route.len() == 0 {
        seq![]
    } else {
        let before = route.drop_last();
        let from = if before.len() == 0 { here } else { before.last().room };
        walked(here, before) + if route.last().teleport { seq![] } else { seq![(from, route.last().room)] }
    }
}

/// The steps a route walks, from `here`, as pairs of rooms; teleporter
/// jumps are left out.
pub fn walked_steps(here: u16, route: Option<&[Step]>) -> (steps: Vec<(u16, u16)>)
    ensures
        steps@ == match route {
            Some(r) => walked(here, r@),
            None => seq![],
        },
{
    let mut steps: Vec<(u16, u16)> = Vec::new();
    let route: &[Step] = match route {
        Some(r) => r,
        None => {
            return steps;
        },
    };
    let mut from = here;
    let mut i: usize = 0;
    while i < route.len()
        invariant
            i <= route@.len(),
            steps@ == walked(here, route@.take(i as int)),
            from == if i == 0 { here } else { route@[i - 1].room },
        decreases route@.len() - i,
    {
        let step = route[i];
        assert(route@.take(i + 1).drop_last() =~= route@.take(i as int));
        if !step.teleport {
            steps.push((from, step.room));
        }
        from = step.room;
        i = i + 1;
    }
    assert(route@.take(i as int) =~= route@);
    steps
}

} // verus!
