//! Parties: named groups of players.

use vstd::prelude::*;
use vstd::hash_set::StringHashSet;

verus! {

/// A group of players. Its id is fixed when it is made. A name is a member
/// or it is not; a member stays one.
pub struct Party {
    id: usize,
    members: StringHashSet,
}

/// A party as a mathematical value.
pub struct PartyView {
    pub id: usize,
    pub members: Set<Seq<char>>,
}

impl View for Party {
    type V = PartyView;

    closed spec fn view(&self) -> PartyView {
        PartyView { id: self.id, members: self.members@ }
    }
}

/// The names that occur in `names`.
pub open spec fn names_in(names: Seq<String>) -> Set<Seq<char>> {
    Set::new(
        |name: Seq<char>| exists|i: int| 0 <= i < names.len() && (#[trigger] names[i])@ == name,
    )
}

impl Party {
    /// The party `id` of the given members. A name given more than once is
    /// one member.
    pub fn new(id: usize, members: &Vec<String>) -> (party: Self)
        ensures
            party@.id == id,
            party@.members == names_in(members@),
    {
        let mut names = StringHashSet::new();
        let n = members.len();
        let mut k: usize = 0;
        while k < n
            invariant
                n == members@.len(),
                k <= n,
                names@ == names_in(members@.take(k as int)),
            decreases n - k,
        {
            let ghost before = names@;
            names.insert(members[k].clone());
            proof {
                let front = members@.take(k as int);
                let next = members@.take(k as int + 1);
                assert forall|name: Seq<char>| names@.contains(name) <==> names_in(next).contains(
                    name,
                ) by {
                    if before.contains(name) {
                        let i = choose|i: int|
                            0 <= i < front.len() && (#[trigger] front[i])@ == name;
                        assert(next[i]@ == name);
                    }
                    if name == members@[k as int]@ {
                        assert(next[k as int]@ == name);
                    }
                    if names_in(next).contains(name) {
                        let i = choose|i: int| 0 <= i < next.len() && (#[trigger] next[i])@ == name;
                        if i < k {
                            assert(front[i]@ == name);
                        }
                    }
                }
            }
            k = k + 1;
        }
        proof {
            assert(members@.take(n as int) =~= members@);
        }
        Party { id, members: names }
    }

    /// The party's id.
    pub fn id(&self) -> (r: usize)
        ensures
            r == self@.id,
    {
        self.id
    }

    /// The members.
    pub fn members(&self) -> (r: &StringHashSet)
        ensures
            r@ == self@.members,
    {
        &self.members
    }

    /// Makes `member_name` a member. Where it is one already, nothing changes.
    pub fn add_member(&mut self, member_name: &str)
        ensures
            final(self)@.id == old(self)@.id,
            final(self)@.members == old(self)@.members.insert(member_name@),
            old(self)@.members.contains(member_name@) ==> final(self)@ == old(self)@,
    {
        self.members.insert(member_name.to_owned());
        proof {
            if old(self)@.members.contains(member_name@) {
                assert(self@.members =~= old(self)@.members);
            }
        }
    }

    /// Whether `other` is a member.
    pub fn includes(&self, other: &str) -> (r: bool)
        ensures
            r == self@.members.contains(other@),
    {
        self.members.contains(other)
    }
}

} // verus!
