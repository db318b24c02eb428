//! The resolved watch set: every stack name to poll, and the root names
//! the user asked about, which alone decide completion.

use vstd::prelude::*;
use crate::text::str_eq;

verus! {

/// No two entries are the same name.
pub open spec fn distinct_names(v: Seq<String>) -> bool {
    forall|i: int, j: int| 0 <= i < j < v.len() ==> v[i]@ != v[j]@
}

/// Some entry is the name `n`.
pub open spec fn seq_contains_name(v: Seq<String>, n: Seq<char>) -> bool {
    exists|i: int| 0 <= i < v.len() && v[i]@ == n
}

/// Two name lists have the same members.
pub open spec fn same_members(a: Seq<String>, b: Seq<String>) -> bool {
    forall|m: Seq<char>| seq_contains_name(a, m) == seq_contains_name(b, m)
}

/// `post` holds exactly the names of `a` and of `b`.
pub open spec fn members_union(post: Seq<String>, a: Seq<String>, b: Seq<String>) -> bool {
    forall|m: Seq<char>|
        seq_contains_name(post, m) == (seq_contains_name(a, m) || seq_contains_name(b, m))
}

/// Appending one entry adds exactly its name to the members.
pub proof fn lemma_push_membership(v: Seq<String>, x: String)
    ensures
        forall|m: Seq<char>|
            seq_contains_name(v.push(x), m) == (seq_contains_name(v, m) || m == x@),
{
    assert forall|m: Seq<char>|
        seq_contains_name(v.push(x), m) implies (seq_contains_name(v, m) || m == x@) by {
        let i = choose|i: int| 0 <= i < v.push(x).len() && v.push(x)[i]@ == m;
        if i < v.len() {
            assert(v[i]@ == m);
        } else {
            assert(v.push(x)[i] == x);
        }
    }
    assert forall|m: Seq<char>|
        (seq_contains_name(v, m) || m == x@) implies seq_contains_name(v.push(x), m) by {
        if seq_contains_name(v, m) {
            let i = choose|i: int| 0 <= i < v.len() && v[i]@ == m;
            assert(v.push(x)[i]@ == m);
        } else {
            assert(v.push(x)[v.len() as int]@ == m);
        }
    }
}

/// True when `n` occurs in `v`.
pub fn contains_name(v: &Vec<String>, n: &str) -> (r: bool)
    ensures
        r == seq_contains_name(v@, n@),
{
    let mut k: usize = 0;
    loop
        invariant
            0 <= k <= v.len(),
            forall|i: int| 0 <= i < k ==> v@[i]@ != n@,
        ensures
            !seq_contains_name(v@, n@),
        decreases v.len() - k,
    {
        if k >= v.len() {
            break;
        }
        if str_eq(v[k].as_str(), n) {
            return true;
        }
        k = k + 1;
    }
    false
}

/// Appends `n` unless it is already present, keeping entries distinct.
pub fn insert_name(v: &mut Vec<String>, n: &String)
    ensures
        seq_contains_name(old(v)@, n@) ==> final(v)@ == old(v)@,
        !seq_contains_name(old(v)@, n@) ==> final(v)@ == old(v)@.push(*n),
        distinct_names(old(v)@) ==> distinct_names(final(v)@),
        seq_contains_name(final(v)@, n@),
        forall|m: Seq<char>|
            seq_contains_name(final(v)@, m) == (seq_contains_name(old(v)@, m) || m == n@),
{
    if !contains_name(v, n.as_str()) {
        v.push(n.clone());
        assert(v@ =~= old(v)@.push(*n));
        proof {
            lemma_push_membership(old(v)@, *n);
        }
        assert(v@[v@.len() - 1]@ == n@);
        proof {
            if distinct_names(old(v)@) {
                assert forall|i: int, j: int| 0 <= i < j < v@.len() implies v@[i]@ != v@[j]@ by {
                    if j == v@.len() - 1 {
                        assert(v@[i] == old(v)@[i]);
                        assert(!seq_contains_name(old(v)@, n@));
                    }
                }
            }
        }
    }
}

/// The resolved watch set: `names` is every stack to poll (roots plus
/// discovered nested stacks, no duplicates) and `original_names` the
/// user-specified roots, whose completion alone ends the run.
pub struct StackInfo {
    pub names: Vec<String>,
    pub original_names: Vec<String>,
}

impl StackInfo {
    /// Both name lists are free of duplicates.
    pub open spec fn wf(&self) -> bool {
        distinct_names(self.names@) && distinct_names(self.original_names@)
    }

    /// Extends the poll set with `more`, keeping it duplicate-free and
    /// leaving the root names untouched.
    pub fn add_names(&mut self, more: &Vec<String>)
        requires
            old(self).wf(),
        ensures
            final(self).wf(),
            final(self).original_names == old(self).original_names,
            members_union(final(self).names@, old(self).names@, more@),
    {
        let mut k: usize = 0;
        loop
            invariant
                0 <= k <= more.len(),
                self.wf(),
                self.original_names == old(self).original_names,
                members_union(self.names@, old(self).names@, more@.take(k as int)),
            ensures
                self.wf(),
                self.original_names == old(self).original_names,
                members_union(self.names@, old(self).names@, more@),
            decreases more.len() - k,
        {
            if k >= more.len() {
                assert(more@.take(more@.len() as int) =~= more@);
                break;
            }
            insert_name(&mut self.names, &more[k]);
            proof {
                assert(more@.take(k + 1 as int) =~= more@.take(k as int).push(more@[k as int]));
                lemma_push_membership(more@.take(k as int), more@[k as int]);
            }
            k = k + 1;
        }
    }
}

/// Builds the watch set from the user-specified roots and the nested
/// stack names discovery produced (empty when nested mode is off): the
/// roots become `original_names`, and `names` is their union with the
/// discovered set, without duplicates.
pub fn build_stack_list(stacks: &Vec<String>, discovered: &Vec<String>) -> (info: StackInfo)
    ensures
        info.wf(),
        same_members(info.original_names@, stacks@),
        members_union(info.names@, stacks@, discovered@),
{
    let mut info = StackInfo { names: Vec::new(), original_names: Vec::new() };
    let mut k: usize = 0;
    loop
        invariant
            0 <= k <= stacks.len(),
            info.wf(),
            info.names@ == info.original_names@,
            same_members(info.original_names@, stacks@.take(k as int)),
        ensures
            info.wf(),
            info.names@ == info.original_names@,
            same_members(info.original_names@, stacks@),
        decreases stacks.len() - k,
    {
        if k >= stacks.len() {
            assert(stacks@.take(stacks@.len() as int) =~= stacks@);
            break;
        }
        insert_name(&mut info.original_names, &stacks[k]);
        insert_name(&mut info.names, &stacks[k]);
        proof {
            assert(stacks@.take(k + 1 as int) =~= stacks@.take(k as int).push(stacks@[k as int]));
            lemma_push_membership(stacks@.take(k as int), stacks@[k as int]);
        }
        k = k + 1;
    }
    let ghost pre_names = info.names@;
    info.add_names(discovered);
    proof {
        assert(members_union(info.names@, pre_names, discovered@));
        assert(same_members(pre_names, stacks@));
        assert forall|m: Seq<char>|
            seq_contains_name(info.names@, m) == (seq_contains_name(stacks@, m)
                || seq_contains_name(discovered@, m)) by {
            assert(seq_contains_name(info.names@, m) == (seq_contains_name(pre_names, m)
                || seq_contains_name(discovered@, m)));
            assert(seq_contains_name(pre_names, m) == seq_contains_name(stacks@, m));
        }
    }
    info
}

} // verus!
