//! The computational half of reading from a task: the page arithmetic of a
//! memory read, and the NUL-trim and decoding of a string read. The syscalls
//! that fetch the raw bytes live at the edge; everything decided about those
//! bytes is verified here.

use vstd::prelude::*;
use vstd::utf8::{decode_utf8, valid_utf8};

use crate::errors::TaskDumpError;

verus! {

/// The longest string a string read returns: these reads retrieve system
/// strings, which never come close.
pub const MAX_STRING_LENGTH: usize = 8192;

/// The byte count a string read fetches: the caller's expected size when it
/// gave one, else the rest of the containing region, in either case capped at
/// [`MAX_STRING_LENGTH`].
pub fn string_read_length(region_size: u64, string_offset: u64, expected_size: Option<usize>) -> (r:
    usize)
    requires
        string_offset <= region_size,
    ensures
        ({
            let wanted: int = match expected_size {
                Some(e) => e as int,
                None => region_size - string_offset,
            };
            r == if wanted > 8192 {
                8192int
            } else {
                wanted
            }
        }),
{
    let wanted: u64 = match expected_size {
        Some(e) => e as u64,
        None => region_size - string_offset,
    };
    if wanted > 8192 {
        8192
    } else {
        wanted as usize
    }
}

/// Relies on `String::from_utf8`: succeeds exactly on valid UTF-8, decoding
/// the bytes to their character sequence.
#[verifier::external_body]
fn decode_utf8_bytes(bytes: Vec<u8>) -> (r: Result<String, ()>)
    ensures
        r is Ok <==> valid_utf8(bytes@),
        r matches Ok(s) ==> s@ == decode_utf8(bytes@),
{
    String::from_utf8(bytes).map_err(|_| ())
}

/// Index of the first NUL byte at or after `from`.
pub open spec fn spec_first_nul(b: Seq<u8>, from: int) -> Option<int>
    decreases b.len() - from,
{
    if from < 0 || from >= b.len() {
        None
    } else if b[from] == 0 {
        Some(from)
    } else {
        spec_first_nul(b, from + 1)
    }
}

/// What [`spec_first_nul`] finds is the first NUL at or after `from`.
pub proof fn lemma_first_nul(b: Seq<u8>, from: int)
    requires
        0 <= from <= b.len(),
    ensures
        match spec_first_nul(b, from) {
            Some(i) => from <= i < b.len() && b[i] == 0 && forall|j: int|
                from <= j < i ==> b[j] != 0,
            None => forall|j: int| from <= j < b.len() ==> b[j] != 0,
        },
    decreases b.len() - from,
{
    if from < b.len() && b[from] != 0 {
        lemma_first_nul(b, from + 1);
    }
}

/// The bytes a string read keeps: everything before the first NUL, or all of
/// them when no NUL occurs.
pub open spec fn spec_string_prefix(b: Seq<u8>) -> Seq<u8> {
    match spec_first_nul(b, 0) {
        Some(i) => b.take(i),
        None => b,
    }
}

/// Turns bytes read from a task into the string they hold: the bytes up to
/// the first NUL, decoded as UTF-8.
///
/// An empty prefix — a leading NUL, or no bytes at all — is `Ok(None)`, not
/// an error; a non-empty prefix that is not valid UTF-8 fails, and exactly
/// then.
pub fn string_from_task_bytes(bytes: Vec<u8>) -> (r: Result<Option<String>, TaskDumpError>)
    ensures
        ({
            let prefix = spec_string_prefix(bytes@);
            match r {
                Ok(opt) => match opt {
                    Some(s) => prefix.len() > 0 && valid_utf8(prefix) && s@ == decode_utf8(
                        prefix,
                    ),
                    None => prefix.len() == 0,
                },
                Err(e) => prefix.len() > 0 && !valid_utf8(prefix) && e is NonUtf8String,
            }
        }),
{
    let mut bytes = bytes;
    let ghost whole = bytes@;
    let n = bytes.len();
    let mut i: usize = 0;
    while i < n
        invariant_except_break
            i <= n,
            n == whole.len(),
            bytes@ == whole,
            forall|j: int| 0 <= j < i ==> whole[j] != 0,
        ensures
            i <= n,
            n == whole.len(),
            bytes@ == whole,
            forall|j: int| 0 <= j < i ==> whole[j] != 0,
            i < n ==> whole[i as int] == 0,
        decreases n - i,
    {
        if bytes[i] == 0 {
            break ;
        }
        i = i + 1;
    }
    proof {
        lemma_first_nul(whole, 0);
        match spec_first_nul(whole, 0) {
            Some(k) => {
                if k < i as int {
                    assert(whole[k] != 0);
                } else if k > i as int {
                    assert(i < n && whole[i as int] == 0);
                }
            },
            None => {
                if i < n {
                    assert(whole[i as int] != 0);
                }
            },
        }
        if i < n {
            assert(spec_first_nul(whole, 0) == Some(i as int));
        } else {
            assert(spec_first_nul(whole, 0) is None);
        }
    }
    bytes.truncate(i);
    assert(bytes@ =~= spec_string_prefix(whole));

    if bytes.len() == 0 {
        return Ok(None);
    }
    match decode_utf8_bytes(bytes) {
        Ok(s) => Ok(Some(s)),
        Err(_) => Err(TaskDumpError::NonUtf8String),
    }
}

/// The smallest page-aligned span covering `length` bytes at `address`: the
/// containing page's base, and the end of the last page touched. A memory
/// read maps exactly this span, copies the requested sub-slice out, and
/// releases the kernel's buffer.
pub fn page_span(address: u64, length: u64, page_size: u64) -> (r: (u64, u64))
    requires
        page_size >= 1,
        address + length + page_size <= u64::MAX,
    ensures
        ({
            let p = page_size as int;
            let end = address + length;
            &&& r.0 == address - (address as int) % p
            &&& r.1 == end + ((p - end % p) % p)
            &&& r.0 <= address
            &&& r.1 >= end
        }),
{
    proof {
        let p = page_size as int;
        let endi = address as int + length as int;
        assert((address as int) % p <= address as int && endi % p < p && (p - endi % p) % p < p)
            by (nonlinear_arith)
            requires
                p >= 1,
                address >= 0,
                endi >= 0,
        ;
    }
    let page_address = address - address % page_size;
    let end = address + length;
    let last_page_address = end + ((page_size - end % page_size) % page_size);
    (page_address, last_page_address)
}

} // verus!
