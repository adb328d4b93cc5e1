//! Serial port connection helpers.
use crate::error::Error;
use crate::port::PortInfo;
use crate::text::{str_contains, text_contains};
use std::time::Duration;
use vstd::prelude::*;

pub mod detect;

verus! {

/// The index of the first name at or after `i` that contains `pattern`, or -1.
pub open spec fn first_name_from(names: Seq<String>, pattern: Seq<char>, i: int) -> int
    decreases names.len() - i,
{
    if i < 0 || i >= names.len() {
        -1
    } else if text_contains(names[i]@, pattern) {
        i
    } else {
        first_name_from(names, pattern, i + 1)
    }
}

/// Picks a port name from the names of the available ports: the first that
/// contains `pattern`, or the first of all without a pattern;
/// `DeviceNotFound` when there is none.
pub fn pick_port(names: &[String], pattern: Option<&str>) -> (r: Result<String, Error>)
    ensures
        ({
            let k = match pattern {
                Some(p) => first_name_from(names@, p@, 0),
                None => if names@.len() > 0 { 0 } else { -1 },
            };
            &&& k >= 0 ==> (r matches Ok(s) && s@ == names@[k]@)
            &&& k < 0 ==> (r matches Err(Error::DeviceNotFound))
        }),
{
    match pattern {
        None => {
            if names.len() == 0 {
                Err(Error::DeviceNotFound)
            } else {
                Ok(names[0].clone())
            }
        },
        Some(p) => {
            let mut i: usize = 0;
            while i < names.len()
                invariant
                    pattern == Some(p),
                    i <= names@.len(),
                    first_name_from(names@, p@, 0) == first_name_from(names@, p@, i as int),
                decreases names@.len() - i,
            {
                if str_contains(names[i].as_str(), p) {
                    let found = names[i].clone();
                    assert(first_name_from(names@, p@, i as int) == i);
                    assert(found@ == names@[i as int]@);

                    return Ok(found);
                }
                i = i + 1;
            }
            Err(Error::DeviceNotFound)
        },
    }
}


/// A connection to a device (serial, TCP, ...).
pub trait ConnectionPort {
    /// Sets the read/write timeout.
    fn set_timeout(&mut self, timeout: Duration) -> Result<(), Error>;

    /// The current timeout.
    fn timeout(&self) -> Duration;

    /// Sets the baud rate.
    fn set_baud_rate(&mut self, baud_rate: u32) -> Result<(), Error>;

    /// The current baud rate.
    fn baud_rate(&self) -> u32;

    /// Clears the input and output buffers.
    fn clear(&mut self) -> Result<(), Error>;

    /// The port name or path.
    fn name(&self) -> String;
}

/// The names of the listed ports, in order.
pub fn port_names(ports: Vec<PortInfo>) -> (r: Vec<String>)
    ensures
        r@.len() == ports@.len(),
        forall|i: int| 0 <= i < r@.len() ==> (#[trigger] r@[i])@ == ports@[i].name@,
{
    let ghost orig = ports@;
    let mut rest = ports;
    let mut r: Vec<String> = Vec::new();
    let ghost mut k: int = 0;
    while rest.len() > 0
        invariant
            0 <= k <= orig.len(),
            rest@ == orig.subrange(k, orig.len() as int),
            r@.len() == k,
            forall|i: int| 0 <= i < k ==> (#[trigger] r@[i])@ == orig[i].name@,
        decreases rest@.len(),
    {
        let p = rest.remove(0);
        assert(p == orig[k]);
        r.push(p.name);
        proof {
            k = k + 1;
            assert(rest@ =~= orig.subrange(k, orig.len() as int));
        }
    }
    r
}

/// A name picked by a pattern (from position `i` on) is one of the names
/// and contains the pattern.
pub proof fn lemma_first_name_from(names: Seq<String>, pattern: Seq<char>, i: int)
    requires
        0 <= i,
    ensures
        first_name_from(names, pattern, i) >= 0 ==> i <= first_name_from(names, pattern, i) < names.len()
            && text_contains(names[first_name_from(names, pattern, i)]@, pattern),
    decreases names.len() - i,
{
    if i < names.len() && !text_contains(names[i]@, pattern) {
        lemma_first_name_from(names, pattern, i + 1);
    }
}

} // verus!
