//! Looking a named profile up in a collection, uniformly over the four
//! profile kinds.

use vstd::prelude::*;

use crate::config::CommandProfile;
use crate::config::RdpProfile;
use crate::config::SshProfile;
use crate::config::TunnelProfile;
use crate::Error;

verus! {

/// A profile that can be found by name and described to the user.
pub trait NamedProfile {
    /// The name the profile is looked up under.
    spec fn spec_name(&self) -> Seq<char>;

    fn name(&self) -> (r: &str)
        ensures
            r@ == self.spec_name(),
    ;

    fn description(&self) -> (r: &Option<String>);
}

impl NamedProfile for RdpProfile {
    open spec fn spec_name(&self) -> Seq<char> {
        self.name@
    }

    fn name(&self) -> (r: &str) {
        self.name.as_str()
    }

    fn description(&self) -> (r: &Option<String>) {
        &self.description
    }
}

impl NamedProfile for SshProfile {
    open spec fn spec_name(&self) -> Seq<char> {
        self.name@
    }

    fn name(&self) -> (r: &str) {
        self.name.as_str()
    }

    fn description(&self) -> (r: &Option<String>) {
        &self.description
    }
}

impl NamedProfile for TunnelProfile {
    open spec fn spec_name(&self) -> Seq<char> {
        self.name@
    }

    fn name(&self) -> (r: &str) {
        self.name.as_str()
    }

    fn description(&self) -> (r: &Option<String>) {
        &self.description
    }
}

impl NamedProfile for CommandProfile {
    open spec fn spec_name(&self) -> Seq<char> {
        self.name@
    }

    fn name(&self) -> (r: &str) {
        self.name.as_str()
    }

    fn description(&self) -> (r: &Option<String>) {
        &self.description
    }
}

/// Position `i` holds the first profile of the list bearing the name.
pub open spec fn is_first_match<T: NamedProfile>(list: Seq<T>, name: Seq<char>, i: int) -> bool {
    &&& 0 <= i < list.len()
    &&& list[i].spec_name() == name
    &&& forall|j: int| 0 <= j < i ==> list[j].spec_name() != name
}

/// How many profiles of the list bear the name.
pub open spec fn spec_count_matches<T: NamedProfile>(list: Seq<T>, name: Seq<char>) -> nat
    decreases list.len(),
{
    if list.len() == 0 {
        0
    } else {
        spec_count_matches(list.drop_last(), name) + if list.last().spec_name() == name {
            1nat
        } else {
            0nat
        }
    }
}

/// Picks the first profile of the list bearing the name; fails when none
/// does. Duplicates are tolerated by design: load order decides.
pub fn select_profile_by_name<'a, T: NamedProfile>(
    profile_type: &str,
    list: &'a Vec<T>,
    name: &str,
) -> (r: Result<&'a T, Error>)
    ensures
        match r {
            Ok(p) => exists|i: int| is_first_match(list@, name@, i) && *p == list@[i],
            Err(e) => {
                &&& forall|i: int| 0 <= i < list@.len() ==> list@[i].spec_name() != name@
                &&& e matches Error::ProfileNotFound(t, n) && t@ == profile_type@ && n@ == name@
            },
        },
{
    let mut i: usize = 0;
    while i < list.len()
        invariant
            i <= list@.len(),
            forall|j: int| 0 <= j < i ==> list@[j].spec_name() != name@,
        decreases list@.len() - i,
    {
        if str_eq(list[i].name(), name) {
            proof {
                assert(is_first_match(list@, name@, i as int));
            }
            return Ok(&list[i]);
        }
        i = i + 1;
    }
    Err(Error::ProfileNotFound(profile_type.to_owned(), name.to_owned()))
}

/// Counts the profiles bearing the name, so that a caller can warn about
/// duplicates before the first one is used.
pub fn count_matching<T: NamedProfile>(list: &Vec<T>, name: &str) -> (r: usize)
    ensures
        r == spec_count_matches(list@, name@),
{
    let mut i: usize = 0;
    let mut n: usize = 0;
    proof {
        assert(list@.take(0).len() == 0);
    }
    while i < list.len()
        invariant
            i <= list@.len(),
            n == spec_count_matches(list@.take(i as int), name@),
            n <= i,
        decreases list@.len() - i,
    {
        proof {
            assert(list@.take(i + 1).drop_last() =~= list@.take(i as int));
            assert(list@.take(i + 1).last() == list@[i as int]);
        }
        if str_eq(list[i].name(), name) {
            n = n + 1;
        }
        i = i + 1;
    }
    proof {
        assert(list@.take(list@.len() as int) =~= list@);
    }
    n
}

/// The names of all profiles of a collection, in order.
pub fn profile_names<T: NamedProfile>(list: &Vec<T>) -> (r: Vec<String>)
    ensures
        r.deep_view() == Seq::new(list@.len(), |i: int| list@[i].spec_name()),
{
    let mut r: Vec<String> = Vec::new();
    let mut i: usize = 0;
    while i < list.len()
        invariant
            i <= list@.len(),
            r.deep_view() =~= Seq::new(i as nat, |j: int| list@[j].spec_name()),
        decreases list@.len() - i,
    {
        let ghost old_r = r.deep_view();
        r.push(list[i].name().to_owned());
        proof {
            assert(r.deep_view() =~= old_r.push(list@[i as int].spec_name()));
            assert(r.deep_view() =~= Seq::new((i + 1) as nat, |j: int| list@[j].spec_name()));
        }
        i = i + 1;
    }
    r
}

/// Character-for-character equality of two string slices.
pub fn str_eq(a: &str, b: &str) -> (r: bool)
    ensures
        r == (a@ == b@),
{
    let sa = a.to_owned();
    let sb = b.to_owned();
    sa == sb
}

} // verus!
