use vstd::prelude::*;
use crate::error::WolError;

verus! {

/// What the platform reports of one network interface, as far as choosing
/// one to send on needs it.
#[derive(Debug, Clone, PartialEq, Eq)]
pub struct Interface {
    pub name: String,
    /// The hardware address, where the interface has one.
    pub mac: Option<[u8; 6]>,
    /// Whether the interface is administratively up.
    pub up: bool,
    /// Whether the interface is a loopback device.
    pub loopback: bool,
    /// How many IP addresses are bound to it.
    pub ip_count: usize,
}

/// Whether `i` may be chosen when no interface is named: it is up, is not a
/// loopback device, and has at least one IP address.
pub open spec fn is_default_candidate(i: Interface) -> bool {
    i.up && !i.loopback && i.ip_count > 0
}

/// Whether `i` answers the request: it bears the name asked for, or, with no
/// name, it is a default candidate.
pub open spec fn is_wanted(i: Interface, name: Option<Seq<char>>) -> bool {
    match name {
        Some(n) => i.name@ == n,
        None => is_default_candidate(i),
    }
}

/// Whether `k` is the first position in `s` whose interface is wanted.
pub open spec fn is_first_wanted(s: Seq<Interface>, name: Option<Seq<char>>, k: int) -> bool {
    &&& 0 <= k < s.len()
    &&& is_wanted(s[k], name)
    &&& forall|j: int| 0 <= j < k ==> !is_wanted(#[trigger] s[j], name)
}

/// Whether no interface of `s` is wanted.
pub open spec fn none_wanted(s: Seq<Interface>, name: Option<Seq<char>>) -> bool {
    forall|j: int| 0 <= j < s.len() ==> !is_wanted(#[trigger] s[j], name)
}

/// The failure that comes when nothing is wanted.
pub open spec fn not_found_error(name: Option<Seq<char>>) -> WolError {
    match name {
        Some(_) => WolError::InterfaceNotFound,
        None => WolError::NoDefaultInterface,
    }
}

/// The view of an optional name.
pub open spec fn name_view(name: Option<&String>) -> Option<Seq<char>> {
    match name {
        Some(n) => Some(n@),
        None => None,
    }
}

/// Whether `r` is a correct outcome of resolving `name` among `s`: the
/// position of the first wanted interface, or the fitting failure when there
/// is none.
pub open spec fn resolves_to(
    s: Seq<Interface>,
    name: Option<Seq<char>>,
    r: Result<usize, WolError>,
) -> bool {
    match r {
        Ok(k) => is_first_wanted(s, name, k as int),
        Err(e) => none_wanted(s, name) && e == not_found_error(name),
    }
}

fn wanted(i: &Interface, name: Option<&String>) -> (r: bool)
    ensures
        r == is_wanted(*i, name_view(name)),
{
    match name {
        Some(n) => i.name == *n,
        None => i.up && !i.loopback && i.ip_count > 0,
    }
}

/// Picks the interface to send on, by position in `interfaces`: the first of
/// the given name, or, with no name, the first that is up, not loopback, and
/// has an IP address. A given name that matches nothing is an error; there is
/// no fallback to a default.
pub fn resolve_interface(interfaces: &Vec<Interface>, name: Option<&String>) -> (r: Result<
    usize,
    WolError,
>)
    ensures
        resolves_to(interfaces@, name_view(name), r),
{
    let mut k: usize = 0;
    while k < interfaces.len()
        invariant
            k <= interfaces@.len(),
            forall|j: int| 0 <= j < k ==> !is_wanted(#[trigger] interfaces@[j], name_view(name)),
        decreases interfaces@.len() - k,
    {
        if wanted(&interfaces[k], name) {
            return Ok(k);
        }
        k = k + 1;
    }
    match name {
        Some(_) => Err(WolError::InterfaceNotFound),
        None => Err(WolError::NoDefaultInterface),
    }
}

/// A name that no interface bears always fails with `InterfaceNotFound`,
/// whatever default interface there may be.
pub proof fn lemma_unknown_name_not_found(
    s: Seq<Interface>,
    n: Seq<char>,
    r: Result<usize, WolError>,
)
    requires
        forall|j: int| 0 <= j < s.len() ==> (#[trigger] s[j]).name@ != n,
        resolves_to(s, Some(n), r),
    ensures
        r == Err::<usize, WolError>(WolError::InterfaceNotFound),
{
    if let Ok(k) = r {
        assert(s[k as int].name@ == n);
    }
}

/// With no name, the choice is the first interface that is up, not loopback,
/// and has an IP address; when there is none, it fails with
/// `NoDefaultInterface`.
pub proof fn lemma_default_choice(s: Seq<Interface>, r: Result<usize, WolError>)
    requires
        resolves_to(s, None, r),
    ensures
        r matches Ok(k) ==> {
            &&& k < s.len()
            &&& is_default_candidate(s[k as int])
            &&& forall|j: int| 0 <= j < k ==> !is_default_candidate(#[trigger] s[j])
        },
        r is Err <==> forall|j: int| 0 <= j < s.len() ==> !is_default_candidate(#[trigger] s[j]),
        r is Err ==> r == Err::<usize, WolError>(WolError::NoDefaultInterface),
{
    if let Ok(k) = r {
        assert(is_wanted(s[k as int], None));
    } else {
        assert forall|j: int| 0 <= j < s.len() implies !is_default_candidate(#[trigger] s[j]) by {
            assert(!is_wanted(s[j], None));
        }
    }
}

} // verus!
