use vstd::prelude::*;
use arrayvec::ArrayVec;
use crate::error::WolError;
use crate::frame::{frame_bytes, frame_with_secret, magic_frame};
use crate::interface::{
    is_first_wanted, name_view, none_wanted, not_found_error, resolve_interface, Interface,
};
use crate::password::{password_secret, WolPassword};

verus! {

/// The bytes an optional password appends, or why it is refused; with no
/// password nothing is appended.
pub open spec fn optional_secret(password: Option<WolPassword>) -> Result<Seq<u8>, WolError> {
    match password {
        Some(p) => password_secret(p),
        None => Ok(Seq::empty()),
    }
}

/// The view of an optional borrowed password.
pub open spec fn password_view(password: Option<&WolPassword>) -> Option<WolPassword> {
    match password {
        Some(p) => Some(*p),
        None => None,
    }
}

/// Builds the frame that wakes `target`, sent from `source`, with the
/// password's bytes, if any, after the payload; a refused password is the
/// error.
pub fn build_magic_frame(target: [u8; 6], source: [u8; 6], password: Option<&WolPassword>) -> (r:
    Result<ArrayVec<u8, 122>, WolError>)
    ensures
        match optional_secret(password_view(password)) {
            Ok(b) => r matches Ok(f) && frame_bytes(f) == magic_frame(target@, source@, b),
            Err(e) => r == Err::<ArrayVec<u8, 122>, WolError>(e),
        },
{
    match password {
        None => {
            let none: [u8; 0] = [];
            frame_with_secret(target, source, &none)
        },
        Some(p) => {
            let secret = p.secret_bytes()?;
            frame_with_secret(target, source, secret.as_slice())
        },
    }
}

/// Whether `r` is a correct outcome of preparing to wake `target`: the
/// position of the interface to send on, chosen as `resolve_interface` does,
/// and the frame to send from its hardware address; or the first failure met
/// along the way (resolution, a missing hardware address, the password).
pub open spec fn prepares(
    s: Seq<Interface>,
    name: Option<Seq<char>>,
    target: Seq<u8>,
    password: Option<WolPassword>,
    r: Result<(usize, ArrayVec<u8, 122>), WolError>,
) -> bool {
    match r {
        Ok((k, f)) => {
            &&& is_first_wanted(s, name, k as int)
            &&& s[k as int].mac matches Some(m)
            &&& optional_secret(password) matches Ok(b)
            &&& frame_bytes(f) == magic_frame(target, m@, b)
        },
        Err(e) => if none_wanted(s, name) {
            e == not_found_error(name)
        } else {
            exists|k: int|
                #![trigger s[k]]
                {
                    &&& is_first_wanted(s, name, k)
                    &&& match s[k].mac {
                        None => e == WolError::MissingInterfaceMac,
                        Some(_) => optional_secret(password) == Err::<Seq<u8>, WolError>(e),
                    }
                }
        },
    }
}

/// Everything a wake-up decides before sending: which interface to use, and
/// the frame to send on it to wake `target`.
pub fn prepare_wake(
    target: [u8; 6],
    password: Option<&WolPassword>,
    interfaces: &Vec<Interface>,
    name: Option<&String>,
) -> (r: Result<(usize, ArrayVec<u8, 122>), WolError>)
    ensures
        prepares(interfaces@, name_view(name), target@, password_view(password), r),
{
    let k = resolve_interface(interfaces, name)?;
    let source = match interfaces[k].mac {
        Some(m) => m,
        None => return Err(WolError::MissingInterfaceMac),
    };
    let frame = build_magic_frame(target, source, password)?;
    Ok((k, frame))
}

} // verus!
