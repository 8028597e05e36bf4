//! Storage areas and network overrides.

use vstd::prelude::*;

verus! {

/// A web storage area.
#[derive(Debug, Clone, Copy, PartialEq, Eq, Structural)]
pub enum StorageArea {
    Local,
    Session,
}

/// A header that is set on every request.
#[derive(Debug, PartialEq, Eq)]
pub struct NetworkOverride {
    pub header: String,
    pub value: String,
}

/// The contents of a `NetworkOverride`.
#[verifier::ext_equal]
pub struct OverrideView {
    pub header: Seq<char>,
    pub value: Seq<char>,
}

impl View for NetworkOverride {
    type V = OverrideView;

    open spec fn view(&self) -> OverrideView {
        OverrideView { header: self.header@, value: self.value@ }
    }
}

impl Clone for NetworkOverride {
    fn clone(&self) -> (res: Self)
        ensures
            res@ == self@,
    {
        NetworkOverride { header: self.header.clone(), value: self.value.clone() }
    }
}

/// The contents of a list of overrides.
pub open spec fn overrides_view(list: Seq<NetworkOverride>) -> Seq<OverrideView> {
    Seq::new(list.len(), |i: int| list[i]@)
}

/// A copy of a list of overrides.
pub fn clone_overrides(list: &Vec<NetworkOverride>) -> (res: Vec<NetworkOverride>)
    ensures
        overrides_view(res@) == overrides_view(list@),
{
    let mut out: Vec<NetworkOverride> = Vec::new();
    let mut i: usize = 0;
    while i < list.len()
        invariant
            i <= list@.len(),
            out@.len() == i,
            forall|j: int| 0 <= j < i ==> (#[trigger] out@[j])@ == list@[j]@,
        decreases list@.len() - i,
    {
        out.push(list[i].clone());
        i += 1;
    }
    assert(overrides_view(out@) =~= overrides_view(list@));
    out
}

/// The contents of an override are its header and its value.
pub proof fn law_contents_of_network_override(x: NetworkOverride)
    ensures
        ({
            &&& x@.header == x.header@
            &&& x@.value == x.value@
        }),
{
}

} // verus!
