//! Reachability in graphs whose nodes are named by strings.

use crate::text;
use crate::text::str_eq;
use vstd::prelude::*;

verus! {

/// Whether each node of `p` leads to the next.
pub open spec fn is_path(leads: spec_fn(Seq<char>, Seq<char>) -> bool, p: Seq<Seq<char>>) -> bool {
    p.len() >= 2 && forall|i: int| 0 <= i < p.len() - 1 ==> leads(#[trigger] p[i], p[i + 1])
}

/// Whether a path of at least one step goes from one node to another.
pub open spec fn reaches(
    leads: spec_fn(Seq<char>, Seq<char>) -> bool,
    from: Seq<char>,
    to: Seq<char>,
) -> bool {
    exists|p: Seq<Seq<char>>| #[trigger] is_path(leads, p) && p[0] == from && p.last() == to
}

/// Two relations that agree reach the same.
pub proof fn lemma_reaches_agree(
    a: spec_fn(Seq<char>, Seq<char>) -> bool,
    b: spec_fn(Seq<char>, Seq<char>) -> bool,
    from: Seq<char>,
    to: Seq<char>,
)
    requires
        forall|x: Seq<char>, y: Seq<char>| #[trigger] a(x, y) == b(x, y),
    ensures
        reaches(a, from, to) == reaches(b, from, to),
{
    if reaches(a, from, to) {
        let p = choose|p: Seq<Seq<char>>| #[trigger]
            is_path(a, p) && p[0] == from && p.last() == to;
        assert forall|i: int| 0 <= i < p.len() - 1 implies b(#[trigger] p[i], p[i + 1]) by {
            assert(a(p[i], p[i + 1]));
        }
        assert(is_path(b, p));
    }
    if reaches(b, from, to) {
        let p = choose|p: Seq<Seq<char>>| #[trigger]
            is_path(b, p) && p[0] == from && p.last() == to;
        assert forall|i: int| 0 <= i < p.len() - 1 implies a(#[trigger] p[i], p[i + 1]) by {
            assert(b(p[i], p[i + 1]) == a(p[i], p[i + 1]));
        }
        assert(is_path(a, p));
    }
}

/// One step reaches.
pub proof fn lemma_step_reaches(
    leads: spec_fn(Seq<char>, Seq<char>) -> bool,
    from: Seq<char>,
    to: Seq<char>,
)
    requires
        leads(from, to),
    ensures
        reaches(leads, from, to),
{
    let p = seq![from, to];
    assert(is_path(leads, p));
    assert(p.last() == to);
}

/// A path can be made one step longer.
pub proof fn lemma_reaches_further(
    leads: spec_fn(Seq<char>, Seq<char>) -> bool,
    from: Seq<char>,
    mid: Seq<char>,
    to: Seq<char>,
)
    requires
        reaches(leads, from, mid),
        leads(mid, to),
    ensures
        reaches(leads, from, to),
{
    let p = choose|p: Seq<Seq<char>>| #[trigger]
        is_path(leads, p) && p[0] == from && p.last() == mid;
    let q = p.push(to);
    assert forall|i: int| 0 <= i < q.len() - 1 implies leads(#[trigger] q[i], q[i + 1]) by {
        if i < p.len() - 1 {
            assert(q[i] == p[i] && q[i + 1] == p[i + 1]);
        }
    }
    assert(is_path(leads, q));
    assert(q[0] == from && q.last() == to);
}

/// Reaching is transitive.
pub proof fn law_reaches_is_transitive(
    leads: spec_fn(Seq<char>, Seq<char>) -> bool,
    a: Seq<char>,
    b: Seq<char>,
    c: Seq<char>,
)
    requires
        reaches(leads, a, b),
        reaches(leads, b, c),
    ensures
        reaches(leads, a, c),
{
    let p = choose|p: Seq<Seq<char>>| #[trigger] is_path(leads, p) && p[0] == a && p.last() == b;
    let q = choose|q: Seq<Seq<char>>| #[trigger] is_path(leads, q) && q[0] == b && q.last() == c;
    let r = p + q.skip(1);
    assert forall|i: int| 0 <= i < r.len() - 1 implies leads(#[trigger] r[i], r[i + 1]) by {
        if i < p.len() - 1 {
            assert(r[i] == p[i] && r[i + 1] == p[i + 1]);
        } else {
            let j = i - (p.len() - 1);
            assert(r[i] == q[j]);
            assert(r[i + 1] == q[j + 1]);
        }
    }
    assert(is_path(leads, r));
    assert(r[0] == a && r.last() == c);
}

/// A directed edge.
pub struct Link {
    pub from: String,
    pub to: String,
}

/// Whether some edge goes from one node to another.
pub open spec fn linked(links: Seq<Link>, from: Seq<char>, to: Seq<char>) -> bool {
    exists|i: int| 0 <= i < links.len() && (#[trigger] links[i]).from@ == from && links[i].to@ == to
}

/// The edges as a relation.
pub open spec fn relation(links: Seq<Link>) -> spec_fn(Seq<char>, Seq<char>) -> bool {
    |a: Seq<char>, b: Seq<char>| linked(links, a, b)
}

/// The ends of the edges.
spec fn ends(links: Seq<Link>) -> Seq<Seq<char>> {
    Seq::new(links.len(), |i: int| links[i].to@)
}

/// Whether a name occurs in a list.
pub fn name_listed(names: &Vec<String>, name: &str) -> (r: bool)
    ensures
        r == text::texts(names@).contains(name@),
{
    let mut i: usize = 0;
    while i < names.len()
        invariant
            i <= names@.len(),
            forall|j: int| 0 <= j < i ==> (#[trigger] names@[j])@ != name@,
        decreases names@.len() - i,
    {
        if str_eq(names[i].as_str(), name) {
            assert(text::texts(names@)[i as int] == name@);
            return true;
        }
        i += 1;
    }
    assert forall|j: int| 0 <= j < text::texts(names@).len() implies text::texts(names@)[j]
        != name@ by {
        assert(names@[j]@ != name@);
    }
    false
}

/// Adds the nodes to which edges go from `node` and that are not yet known.
fn expand(links: &Vec<Link>, node: &str, known: &mut Vec<String>)
    requires
        text::texts(old(known)@).no_duplicates(),
    ensures
        text::texts(final(known)@).no_duplicates(),
        old(known)@.is_prefix_of(final(known)@),
        forall|x: Seq<char>| #[trigger]
            text::texts(final(known)@).contains(x) <==> text::texts(old(known)@).contains(x)
                || linked(links@, node@, x),
{
    let ghost start = known@;
    let ghost names0 = text::texts(known@);
    let mut i: usize = 0;
    while i < links.len()
        invariant
            i <= links@.len(),
            start == old(known)@,
            names0 == text::texts(start),
            text::texts(known@).no_duplicates(),
            start.is_prefix_of(known@),
            forall|x: Seq<char>| #[trigger]
                text::texts(known@).contains(x) <==> names0.contains(x) || linked(
                    links@.take(i as int),
                    node@,
                    x,
                ),
        decreases links@.len() - i,
    {
        let ghost before = text::texts(known@);
        let ghost l = links@[i as int];
        let ghost done = links@.take(i as int);
        let ghost more = links@.take(i + 1);
        proof {
            assert forall|x: Seq<char>| #[trigger] linked(more, node@, x) <==> linked(
                done,
                node@,
                x,
            ) || (l.from@ == node@ && l.to@ == x) by {
                if linked(more, node@, x) {
                    let k = choose|k: int|
                        0 <= k < more.len() && (#[trigger] more[k]).from@ == node@ && more[k].to@
                            == x;
                    if k < i {
                        assert(done[k] == more[k]);
                    }
                }
                if linked(done, node@, x) {
                    let k = choose|k: int|
                        0 <= k < done.len() && (#[trigger] done[k]).from@ == node@ && done[k].to@
                            == x;
                    assert(more[k] == done[k]);
                }
                if l.from@ == node@ && l.to@ == x {
                    assert(more[i as int] == l);
                }
            }
        }
        if str_eq(links[i].from.as_str(), node) && !name_listed(known, links[i].to.as_str()) {
            known.push(links[i].to.clone());
            proof {
                let now = text::texts(known@);
                assert(now =~= before.push(l.to@));
                assert forall|x: Seq<char>| #[trigger] now.contains(x) <==> before.contains(x) || x
                    == l.to@ by {
                    if before.contains(x) {
                        let k = before.index_of(x);
                        assert(now[k] == x);
                    }
                    if x == l.to@ {
                        assert(now[before.len() as int] == x);
                    }
                    if now.contains(x) {
                        let k = now.index_of(x);
                        if k < before.len() {
                            assert(before[k] == x);
                        }
                    }
                }
                assert forall|a: int, b: int|
                    0 <= a < now.len() && 0 <= b < now.len() && a != b implies now[a] != now[b] by {
                    if a < before.len() && b < before.len() {
                        assert(before[a] != before[b]);
                    } else if a < before.len() {
                        assert(before.contains(before[a]));
                    } else if b < before.len() {
                        assert(before.contains(before[b]));
                    }
                }
            }
        }
        i += 1;
    }
    assert(links@.take(i as int) =~= links@);
}

/// The nodes that can be reached from `start` in one or more steps, each once.
pub fn reachable(links: &Vec<Link>, start: &str) -> (r: Vec<String>)
    ensures
        text::texts(r@).no_duplicates(),
        forall|x: Seq<char>| #[trigger]
            text::texts(r@).contains(x) <==> reaches(relation(links@), start@, x),
{
    let ghost rel = relation(links@);
    let mut known: Vec<String> = Vec::new();
    expand(links, start, &mut known);
    let mut done: usize = 0;
    proof {
        assert forall|x: Seq<char>| #[trigger] text::texts(known@).contains(x) implies reaches(
            rel,
            start@,
            x,
        ) by {
            lemma_step_reaches(rel, start@, x);
        }
        lemma_bounded(links@, start@, text::texts(known@));
    }
    while done < known.len()
        invariant
            done <= known@.len(),
            rel == relation(links@),
            text::texts(known@).no_duplicates(),
            known@.len() <= links@.len(),
            forall|x: Seq<char>| #[trigger]
                text::texts(known@).contains(x) ==> reaches(rel, start@, x),
            forall|x: Seq<char>| #[trigger]
                linked(links@, start@, x) ==> text::texts(known@).contains(x),
            forall|j: int, x: Seq<char>|
                0 <= j < done && #[trigger] linked(links@, known@[j]@, x) ==> text::texts(
                    known@,
                ).contains(x),
        decreases links@.len() - done,
    {
        let ghost before = known@;
        let node = known[done].clone();
        expand(links, node.as_str(), &mut known);
        proof {
            let now = text::texts(known@);
            assert(text::texts(before)[done as int] == node@);
            assert(text::texts(before).contains(node@));
            assert forall|x: Seq<char>| #[trigger] now.contains(x) implies reaches(
                rel,
                start@,
                x,
            ) by {
                if !text::texts(before).contains(x) {
                    assert(rel(node@, x));
                    lemma_reaches_further(rel, start@, node@, x);
                }
            }
            assert forall|j: int, x: Seq<char>|
                0 <= j < done + 1 && #[trigger] linked(
                    links@,
                    known@[j]@,
                    x,
                ) implies now.contains(x) by {
                assert(known@[j] == before[j]);
            }
            lemma_bounded(links@, start@, now);
        }
        done += 1;
    }
    proof {
        let names = text::texts(known@);
        assert forall|x: Seq<char>| #[trigger] reaches(rel, start@, x) implies names.contains(x) by {
            let p = choose|p: Seq<Seq<char>>| #[trigger]
                is_path(rel, p) && p[0] == start@ && p.last() == x;
            lemma_closed_holds_path(links@, start@, known@, p, p.len() - 1);
        }
    }
    known
}

/// Nodes that can be reached are no more than there are edges.
proof fn lemma_bounded(links: Seq<Link>, start: Seq<char>, names: Seq<Seq<char>>)
    requires
        names.no_duplicates(),
        forall|x: Seq<char>| #[trigger] names.contains(x) ==> reaches(relation(links), start, x),
    ensures
        names.len() <= links.len(),
{
    let e = ends(links);
    names.unique_seq_to_set();
    assert forall|x: Seq<char>| #[trigger] names.to_set().contains(x) implies e.to_set().contains(
        x,
    ) by {
        assert(names.contains(x));
        let p = choose|p: Seq<Seq<char>>| #[trigger]
            is_path(relation(links), p) && p[0] == start && p.last() == x;
        let a = p[p.len() - 2];
        assert(relation(links)(a, p[p.len() - 2 + 1]));
        let k = choose|k: int|
            0 <= k < links.len() && (#[trigger] links[k]).from@ == a && links[k].to@ == x;
        assert(e[k] == x);
    }
    e.lemma_cardinality_of_set();
    vstd::set_lib::lemma_len_subset(names.to_set(), e.to_set());
}

/// A set of nodes that holds what edges lead to from the start and from its own
/// nodes holds every node of a path from the start but the first.
proof fn lemma_closed_holds_path(
    links: Seq<Link>,
    start: Seq<char>,
    known: Seq<String>,
    p: Seq<Seq<char>>,
    i: int,
)
    requires
        is_path(relation(links), p),
        p[0] == start,
        1 <= i < p.len(),
        forall|x: Seq<char>| #[trigger]
            linked(links, start, x) ==> text::texts(known).contains(x),
        forall|j: int, x: Seq<char>|
            0 <= j < known.len() && #[trigger] linked(links, known[j]@, x) ==> text::texts(
                known,
            ).contains(x),
    ensures
        text::texts(known).contains(p[i]),
    decreases i,
{
    assert(relation(links)(p[i - 1], p[i - 1 + 1]));
    if i > 1 {
        lemma_closed_holds_path(links, start, known, p, i - 1);
        let j = text::texts(known).index_of(p[i - 1]);
        assert(known[j]@ == p[i - 1]);
        assert(linked(links, known[j]@, p[i]));
    }
}

/// A step is a way, and a way begins with a step.
pub proof fn law_ways_are_made_of_steps(
    leads: spec_fn(Seq<char>, Seq<char>) -> bool,
    a: Seq<char>,
    b: Seq<char>,
)
    ensures
        leads(a, b) ==> reaches(leads, a, b),
        reaches(leads, a, b) ==> exists|x: Seq<char>| #[trigger]
            leads(a, x) && (x == b || reaches(leads, x, b)),
{
    if leads(a, b) {
        let p = seq![a, b];
        assert(p[0] == a && p[1] == b && p.last() == b);
        assert(is_path(leads, p));
    }
    if reaches(leads, a, b) {
        let p = choose|p: Seq<Seq<char>>| #[trigger] is_path(leads, p) && p[0] == a && p.last() == b;
        assert(leads(p[0], p[1]));
        if p.len() > 2 {
            let q = p.skip(1);
            assert forall|i: int| 0 <= i < q.len() - 1 implies leads(#[trigger] q[i], q[i + 1]) by {
                assert(q[i] == p[i + 1] && q[i + 1] == p[i + 2]);
                assert(leads(p[i + 1], p[i + 2]));
            }
            assert(is_path(leads, q));
            assert(q[0] == p[1] && q.last() == b);
        }
    }
}

} // verus!
