//! The data of RPMsg endpoints and of waiting on file descriptors: the
//! endpoint name the kernel is given, which device nodes are RPMsg
//! endpoints, where a created endpoint appears, and what a poll answered.
use vstd::prelude::*;
use crate::error::IOError;
use crate::gpio::{decimal, spec_decimal};
use crate::strutil::str_eq;

verus! {

/// Bytes of an endpoint name in the kernel's endpoint description.
pub const RPMSG_NAME_SIZE: usize = 32;

/// The name field of an endpoint description: the channel name, cut to
/// leave room for a terminating zero, then zeros.
pub open spec fn spec_endpoint_name(name: Seq<u8>) -> Seq<u8> {
    Seq::new(RPMSG_NAME_SIZE as nat, |i: int| if i < name.len() && i < RPMSG_NAME_SIZE - 1 { name[i] } else { 0u8 })
}

/// See `spec_endpoint_name`.
pub fn endpoint_name(channel_name: &[u8]) -> (r: Vec<u8>)
    ensures
        r@ == spec_endpoint_name(channel_name@),
{
    let len = if channel_name.len() < RPMSG_NAME_SIZE - 1 { channel_name.len() } else { RPMSG_NAME_SIZE - 1 };
    let mut out: Vec<u8> = Vec::new();
    let mut i: usize = 0;
    while i < RPMSG_NAME_SIZE
        invariant
            i <= RPMSG_NAME_SIZE,
            len <= channel_name.len(),
            len == if channel_name@.len() < RPMSG_NAME_SIZE - 1 { channel_name@.len() } else { (RPMSG_NAME_SIZE - 1) as nat },
            out@ == spec_endpoint_name(channel_name@).subrange(0, i as int),
        decreases RPMSG_NAME_SIZE - i,
    {
        if i < len {
            out.push(channel_name[i]);
        } else {
            out.push(0);
        }
        i += 1;
        assert(out@ =~= spec_endpoint_name(channel_name@).subrange(0, i as int));
    }
    assert(out@ =~= spec_endpoint_name(channel_name@));
    out
}

/// A device node name of an RPMsg endpoint: `rpmsg` followed by ASCII digits only.
pub open spec fn spec_is_rpmsg_device(name: Seq<char>) -> bool {
    &&& name.len() >= 5
    &&& name.subrange(0, 5) == "rpmsg"@
    &&& forall|i: int| 5 <= i < name.len() ==> '0' <= #[trigger] name[i] <= '9'
}

/// See `spec_is_rpmsg_device`.
pub fn is_rpmsg_device(name: &str) -> (r: bool)
    ensures
        r == spec_is_rpmsg_device(name@),
{
    let n = name.unicode_len();
    if n < 5 || !str_eq(name.substring_char(0, 5), "rpmsg") {
        return false;
    }
    let mut i: usize = 5;
    while i < n
        invariant
            5 <= i <= n,
            n == name@.len(),
            forall|k: int| 5 <= k < i ==> '0' <= #[trigger] name@[k] <= '9',
        decreases n - i,
    {
        let c = name.get_char(i);
        if !('0' <= c && c <= '9') {
            return false;
        }
        i += 1;
    }
    true
}

/// The device node of the endpoint the kernel numbered `ept_id`; `None`
/// when no number was given back (a negative id), in which case the new
/// node is found by comparing the device lists.
pub fn endpoint_path(ept_id: i32) -> (r: Option<String>)
    ensures
        ept_id >= 0 ==> (r matches Some(p) && p@ == "/dev/rpmsg"@ + spec_decimal(ept_id as nat)),
        ept_id < 0 ==> r is None,
{
    if ept_id >= 0 {
        let mut p = String::from_str("/dev/rpmsg");
        let num = decimal(ept_id as u32);
        p.append(num.as_str());
        Some(p)
    } else {
        None
    }
}

/// The endpoint number the kernel wrote back, read as signed.
pub fn assigned_endpoint_id(src: u32) -> (r: i32)
    ensures
        r == src as i32,
{
    #[verifier::truncate]
    let r = src as i32;
    r
}

/// The names of a list of devices.
pub open spec fn spec_names(v: Seq<String>) -> Seq<Seq<char>> {
    v.map_values(|s: String| s@)
}

/// The position in `current` of the first device not in `before`, if any.
pub fn first_new_device(before: &Vec<String>, current: &Vec<String>) -> (r: Option<usize>)
    ensures
        match r {
            Some(i) => i < current.len() && !spec_names(before@).contains(current[i as int]@)
                && (forall|k: int| 0 <= k < i ==> spec_names(before@).contains(#[trigger] current[k]@)),
            None => forall|k: int| 0 <= k < current.len() ==> spec_names(before@).contains(#[trigger] current[k]@),
        },
{
    let ghost bv = spec_names(before@);
    let mut i: usize = 0;
    while i < current.len()
        invariant
            i <= current.len(),
            bv == spec_names(before@),
            forall|k: int| 0 <= k < i ==> bv.contains(#[trigger] current[k]@),
        decreases current.len() - i,
    {
        let mut found = false;
        let mut j: usize = 0;
        while j < before.len()
            invariant
                j <= before.len(),
                i < current.len(),
                bv == spec_names(before@),
                found ==> bv.contains(current[i as int]@),
                !found ==> forall|q: int| 0 <= q < j ==> bv[q] != current[i as int]@,
            decreases before.len() - j,
        {
            if str_eq(before[j].as_str(), current[i].as_str()) {
                assert(bv[j as int] == current[i as int]@);
                found = true;
            }
            j += 1;
        }
        if !found {
            return Some(i);
        }
        i += 1;
    }
    None
}

/// What a poll of one descriptor answered: a negative count is the
/// operating system's error `errno`, zero is a timeout, an error event is an
/// error without a number; otherwise the descriptor is ready.
pub fn poll_outcome(ret: i32, errno: i32, error_event: bool) -> (r: Result<(), IOError>)
    ensures
        ret < 0 ==> r == Err::<(), IOError>(IOError::Linux { errno }),
        ret == 0 ==> r == Err::<(), IOError>(IOError::Timeout),
        ret > 0 && error_event ==> r == Err::<(), IOError>(IOError::Linux { errno: 0 }),
        ret > 0 && !error_event ==> r is Ok,
{
    if ret < 0 {
        return Err(IOError::Linux { errno });
    }
    if ret == 0 {
        return Err(IOError::Timeout);
    }
    if error_event {
        return Err(IOError::Linux { errno: 0 });
    }
    Ok(())
}

} // verus!
