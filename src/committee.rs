//! Committee members as the roster directory lists them.

use vstd::prelude::*;

verus! {

/// A committee member and the number of quiz polls in which they were the answer.
#[derive(Debug, Clone)]
pub struct Committee {
    pub id: i32,
    pub name: String,
    pub poll_count: i32,
}

/// What a `Committee` entry holds, with the name as characters.
pub struct MemberModel {
    pub id: i32,
    pub name: Seq<char>,
    pub poll_count: i32,
}

impl View for Committee {
    type V = MemberModel;

    open spec fn view(&self) -> MemberModel {
        MemberModel { id: self.id, name: self.name@, poll_count: self.poll_count }
    }
}

pub open spec fn names_view(v: Seq<String>) -> Seq<Seq<char>> {
    v.map_values(|s: String| s@)
}

pub open spec fn roster_view(c: Seq<Committee>) -> Seq<MemberModel> {
    c.map_values(|m: Committee| m@)
}

pub open spec fn roster_names(c: Seq<MemberModel>) -> Seq<Seq<char>> {
    c.map_values(|m: MemberModel| m.name)
}

/// A count raised by one, held at the largest `i32`.
pub open spec fn bumped(n: i32) -> i32 {
    if n < i32::MAX {
        (n + 1) as i32
    } else {
        n
    }
}

/// The member after being the answer of one more poll when named `target`; unchanged otherwise.
pub open spec fn member_after_poll(m: MemberModel, target: Seq<char>) -> MemberModel {
    if m.name == target {
        MemberModel { poll_count: bumped(m.poll_count), ..m }
    } else {
        m
    }
}

pub open spec fn roster_after_poll(c: Seq<MemberModel>, target: Seq<char>) -> Seq<MemberModel> {
    c.map_values(|m: MemberModel| member_after_poll(m, target))
}

/// The names of the members, in roster order.
pub fn member_names(committee: &Vec<Committee>) -> (r: Vec<String>)
    ensures
        names_view(r@) == roster_names(roster_view(committee@)),
{
    let mut r: Vec<String> = Vec::new();
    let mut i: usize = 0;
    while i < committee.len()
        invariant
            i <= committee@.len(),
            r@.len() == i,
            forall|j: int| 0 <= j < i ==> r@[j]@ == committee@[j].name@,
        decreases committee@.len() - i,
    {
        r.push(committee[i].name.clone());
        i = i + 1;
    }
    assert(names_view(r@) =~= roster_names(roster_view(committee@)));
    r
}

/// Raises by one the poll count of every member named `target`.
pub fn record_poll(committee: Vec<Committee>, target: &String) -> (r: Vec<Committee>)
    ensures
        roster_view(r@) == roster_after_poll(roster_view(committee@), target@),
{
    let mut r: Vec<Committee> = Vec::new();
    let mut i: usize = 0;
    while i < committee.len()
        invariant
            i <= committee@.len(),
            r@.len() == i,
            forall|j: int|
                0 <= j < i ==> r@[j]@ == member_after_poll(committee@[j]@, target@),
        decreases committee@.len() - i,
    {
        let m = &committee[i];
        let count = if m.name == *target {
            if m.poll_count < i32::MAX {
                m.poll_count + 1
            } else {
                m.poll_count
            }
        } else {
            m.poll_count
        };
        r.push(Committee { id: m.id, name: m.name.clone(), poll_count: count });
        i = i + 1;
    }
    assert(roster_view(r@) =~= roster_after_poll(roster_view(committee@), target@));
    r
}

/// `r` lists the members of `c` by poll count, highest first, members with equal counts in
/// the reverse of their roster order; `perm` gives the roster position of each entry.
pub open spec fn ranked(c: Seq<MemberModel>, r: Seq<MemberModel>, perm: Seq<int>) -> bool {
    &&& r.len() == c.len()
    &&& perm.len() == c.len()
    &&& forall|k: int| 0 <= k < r.len() ==> 0 <= #[trigger] perm[k] < c.len() && r[k] == c[perm[k]]
    &&& forall|k: int, l: int| 0 <= k < l < r.len() ==> perm[k] != perm[l]
    &&& forall|k: int, l: int| 0 <= k < l < r.len() ==> r[k].poll_count >= r[l].poll_count
    &&& forall|k: int, l: int|
        0 <= k < l < r.len() && r[k].poll_count == r[l].poll_count ==> perm[k] > perm[l]
}

/// The members ordered for the statistics: by poll count, highest first, members with equal
/// counts in the reverse of their roster order.
pub fn stats(committee: &Vec<Committee>) -> (r: Vec<Committee>)
    ensures
        exists|perm: Seq<int>| ranked(roster_view(committee@), roster_view(r@), perm),
{
    let ghost c = roster_view(committee@);
    let mut out: Vec<Committee> = Vec::new();
    let ghost mut perm: Seq<int> = Seq::empty();
    let mut i: usize = 0;
    while i < committee.len()
        invariant
            i <= committee@.len(),
            c == roster_view(committee@),
            ranked(c.take(i as int), roster_view(out@), perm),
        decreases committee@.len() - i,
    {
        let x = &committee[i];
        let mut pos: usize = 0;
        while pos < out.len() && out[pos].poll_count > x.poll_count
            invariant
                pos <= out@.len(),
                forall|k: int| 0 <= k < pos ==> #[trigger] out@[k].poll_count > x.poll_count,
            decreases out@.len() - pos,
        {
            pos = pos + 1;
        }
        let ghost old_out = roster_view(out@);
        let ghost old_perm = perm;
        let ghost prefix = c.take(i as int);
        out.insert(pos, Committee { id: x.id, name: x.name.clone(), poll_count: x.poll_count });
        proof {
            perm = old_perm.insert(pos as int, i as int);
            let new_out = roster_view(out@);
            let next = c.take(i as int + 1);
            assert(new_out =~= old_out.insert(pos as int, c[i as int]));
            assert forall|k: int| 0 <= k < prefix.len() implies next[k] == prefix[k] by {}
            assert forall|k: int| 0 <= k < new_out.len() implies 0 <= #[trigger] perm[k] < next.len()
                && new_out[k] == next[perm[k]] by {
                if k < pos {
                    assert(perm[k] == old_perm[k]);
                } else if k > pos {
                    assert(perm[k] == old_perm[k - 1]);
                }
            }
            assert forall|k: int, l: int| 0 <= k < l < new_out.len() implies perm[k] != perm[l] by {
                if k < pos && l > pos {
                    assert(old_perm[k] != old_perm[l - 1]);
                } else if k > pos {
                    assert(old_perm[k - 1] != old_perm[l - 1]);
                } else if l < pos {
                    assert(old_perm[k] != old_perm[l]);
                } else if k == pos {
                    assert(0 <= old_perm[l - 1] < i);
                } else {
                    assert(0 <= old_perm[k] < i);
                }
            }
            assert forall|k: int, l: int| 0 <= k < l < new_out.len() implies new_out[k].poll_count
                >= new_out[l].poll_count && (new_out[k].poll_count == new_out[l].poll_count
                ==> perm[k] > perm[l]) by {
                if k < pos && l > pos {
                    assert(old_out[k].poll_count >= old_out[l - 1].poll_count);
                    assert(old_out[k].poll_count > x.poll_count);
                } else if k > pos {
                    assert(old_out[k - 1].poll_count >= old_out[l - 1].poll_count);
                } else if l < pos {
                    assert(old_out[k].poll_count >= old_out[l].poll_count);
                } else if k == pos {
                    assert(pos < old_out.len());
                    assert(old_out[pos as int].poll_count <= x.poll_count);
                    if l - 1 > pos {
                        assert(old_out[pos as int].poll_count >= old_out[l - 1].poll_count);
                    }
                    assert(0 <= old_perm[l - 1] < i);
                } else {
                    assert(old_out[k].poll_count > x.poll_count);
                }
            }
        }
        i = i + 1;
    }
    assert(c.take(i as int) =~= c);
    out
}

} // verus!
