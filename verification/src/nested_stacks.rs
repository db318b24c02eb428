//! Nested-stack discovery: a graph walk over stack resources that
//! collects every stack name reachable from a root. The caller fetches
//! the resources of each target the walk asks for and hands them back;
//! the walk itself decides what was discovered and what to expand next.

use vstd::prelude::*;
use crate::stacks::{distinct_names, insert_name, lemma_push_membership, members_union,
    seq_contains_name};
use crate::text::str_eq;

verus! {

/// One resource of one stack, as the resource-listing call reports it.
/// A resource of the nested-stack type carries the child stack's
/// physical id; a resource not yet created has no physical id.
pub struct Resource {
    pub stack_name: String,
    pub resource_type: String,
    pub physical_resource_id: Option<String>,
}

/// The resource type that marks a nested stack.
pub open spec fn spec_nested_marker() -> Seq<char> {
    "AWS::CloudFormation::Stack"@
}

/// The physical ids of the nested-stack resources of `rs` that have one,
/// in order. A resource with no physical id contributes nothing.
pub open spec fn nested_ids(rs: Seq<Resource>) -> Seq<String>
    decreases rs.len(),
{
    if rs.len() == 0 {
        Seq::empty()
    } else {
        nested_ids(rs.drop_last()) + (if rs.last().resource_type@ == spec_nested_marker()
            && rs.last().physical_resource_id is Some {
            seq![rs.last().physical_resource_id.unwrap()]
        } else {
            Seq::empty()
        })
    }
}

/// The owning stack name of each resource.
pub open spec fn resource_names(rs: Seq<Resource>) -> Seq<String> {
    rs.map_values(|r: Resource| r.stack_name)
}

/// The walk's state: the stack names recorded so far and the physical
/// ids still to expand. The walk tolerates one id pushed twice;
/// re-fetching is idempotent, and `visited` never takes a duplicate.
pub struct Resolver {
    pub visited: Vec<String>,
    pub to_visit: Vec<String>,
}

impl Resolver {
    /// The recorded names carry no duplicate.
    pub open spec fn wf(&self) -> bool {
        distinct_names(self.visited@)
    }

    /// Starts a walk at `root`: the root's own name is recorded, and the
    /// root itself is the first target to expand.
    pub fn new(root: &String) -> (r: Resolver)
        ensures
            r.wf(),
            r.visited@ =~= seq![*root],
            r.to_visit@ =~= seq![*root],
    {
        let mut visited: Vec<String> = Vec::new();
        visited.push(root.clone());
        let mut to_visit: Vec<String> = Vec::new();
        to_visit.push(root.clone());
        Resolver { visited, to_visit }
    }

    /// The next target whose resources the caller should fetch, or
    /// `None` when the walk is finished.
    pub fn next_target(&mut self) -> (r: Option<String>)
        ensures
            final(self).visited == old(self).visited,
            old(self).to_visit@.len() == 0 ==> r is None && final(self).to_visit@
                == old(self).to_visit@,
            old(self).to_visit@.len() > 0 ==> r == Some(old(self).to_visit@.last())
                && final(self).to_visit@ == old(self).to_visit@.drop_last(),
    {
        self.to_visit.pop()
    }

    /// Records one target's fetched resources: every resource's owning
    /// stack name joins the recorded set, and every nested-stack
    /// resource with a physical id queues that id for expansion.
    pub fn record_resources(&mut self, resources: &Vec<Resource>)
        requires
            old(self).wf(),
        ensures
            final(self).wf(),
            members_union(final(self).visited@, old(self).visited@, resource_names(resources@)),
            final(self).to_visit@ == old(self).to_visit@ + nested_ids(resources@),
    {
        let mut k: usize = 0;
        loop
            invariant
                0 <= k <= resources.len(),
                self.wf(),
                members_union(
                    self.visited@,
                    old(self).visited@,
                    resource_names(resources@.take(k as int)),
                ),
                self.to_visit@ == old(self).to_visit@ + nested_ids(resources@.take(k as int)),
            ensures
                self.wf(),
                members_union(self.visited@, old(self).visited@, resource_names(resources@)),
                self.to_visit@ == old(self).to_visit@ + nested_ids(resources@),
            decreases resources.len() - k,
        {
            if k >= resources.len() {
                assert(resources@.take(resources@.len() as int) =~= resources@);
                break;
            }
            let r = &resources[k];
            insert_name(&mut self.visited, &r.stack_name);
            if str_eq(r.resource_type.as_str(), "AWS::CloudFormation::Stack") {
                match &r.physical_resource_id {
                    Some(id) => {
                        self.to_visit.push(id.clone());
                    },
                    None => {},
                }
            }
            proof {
                let taken = resources@.take(k as int);
                let taken1 = resources@.take(k + 1 as int);
                assert(taken1.drop_last() =~= taken);
                assert(taken1.last() == resources@[k as int]);
                assert(resource_names(taken1) =~= resource_names(taken).push(
                    resources@[k as int].stack_name,
                ));
                lemma_push_membership(resource_names(taken), resources@[k as int].stack_name);
                if resources@[k as int].resource_type@ == spec_nested_marker()
                    && resources@[k as int].physical_resource_id is Some {
                    assert(nested_ids(taken1) =~= nested_ids(taken).push(
                        resources@[k as int].physical_resource_id.unwrap(),
                    ));
                    assert(self.to_visit@ =~= old(self).to_visit@ + nested_ids(taken1));
                } else {
                    assert(nested_ids(taken1) =~= nested_ids(taken));
                }
            }
            k = k + 1;
        }
    }
}

} // verus!
