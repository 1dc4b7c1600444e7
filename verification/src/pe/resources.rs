//! Rebasing of Win32 resource trees.

use vstd::prelude::*;

use crate::bytes;
use crate::error::{Error, ErrorKind};
use crate::pe::buffer;
use crate::pe::checksum;
use crate::text;
use crate::text::Message;

verus! {

broadcast use crate::bytes::widths;

/// An address moved from the old start of its section to the new one.
pub open spec fn rebased(rva: u32, old_rva: u32, new_rva: u32) -> u32 {
    bytes::low32(rva - old_rva + new_rva)
}

/// The resources with the data entry at `at` rebased.
pub open spec fn patched_data(s: Seq<u8>, at: int, old_rva: u32, new_rva: u32) -> Option<Seq<u8>> {
    if at + 4 > s.len() {
        None
    } else {
        Some(
            bytes::overwrite(
                s,
                at,
                bytes::u32_le(rebased(bytes::u32_at(s, at), old_rva, new_rva)),
            ),
        )
    }
}

/// The resources with all data entries below the directory table at `at`
/// rebased: sixteen bytes of header, which end in the numbers of named and of
/// numbered entries, then the entries.
pub open spec fn patched_table(
    s: Seq<u8>,
    at: int,
    old_rva: u32,
    new_rva: u32,
    depth: nat,
) -> Option<Seq<u8>>
    decreases depth, 0int, 0int,
{
    if depth == 0 || at + 16 > s.len() {
        None
    } else {
        patched_entries(
            s,
            at + 16,
            ((bytes::u16_at(s, at + 12) + bytes::u16_at(s, at + 14)) % 0x1_0000) as nat,
            old_rva,
            new_rva,
            (depth - 1) as nat,
        )
    }
}

/// The resources with all data entries below the `n` directory entries from
/// `at` on rebased.
pub open spec fn patched_entries(
    s: Seq<u8>,
    at: int,
    n: nat,
    old_rva: u32,
    new_rva: u32,
    depth: nat,
) -> Option<Seq<u8>>
    decreases depth, n, 2int,
{
    if n == 0 {
        Some(s)
    } else {
        match patched_entry(s, at, old_rva, new_rva, depth, n) {
            None => None,
            Some(t) => patched_entries(t, at + 8, (n - 1) as nat, old_rva, new_rva, depth),
        }
    }
}

/// The resources with all data entries below the directory entry at `at`
/// rebased: the second word leads to a table if its highest bit is set, and
/// to a data entry otherwise.
pub open spec fn patched_entry(
    s: Seq<u8>,
    at: int,
    old_rva: u32,
    new_rva: u32,
    depth: nat,
    n: nat,
) -> Option<Seq<u8>>
    decreases depth, n, 1int,
{
    if at + 8 > s.len() {
        None
    } else {
        let child = bytes::u32_at(s, at + 4);
        let target = (child % 0x8000_0000) as int;
        if target > s.len() {
            None
        } else if child >= 0x8000_0000 {
            patched_table(s, target, old_rva, new_rva, depth)
        } else {
            patched_data(s, target, old_rva, new_rva)
        }
    }
}

/// The resource tree with its data entries rebased. A tree that is nested
/// deeper than it has bytes leads back into itself and is not accepted.
pub open spec fn patched_resources(s: Seq<u8>, old_rva: u32, new_rva: u32) -> Option<Seq<u8>> {
    patched_table(s, 0, old_rva, new_rva, s.len())
}

/// Rebases Win32 resource RVAs onto the new `.rsrc` section address.
pub fn patch_win32_resources(resources: &[u8], old_rva: u32, new_rva: u32) -> (r: Result<
    Vec<u8>,
    Error,
>)
    ensures
        match patched_resources(resources@, old_rva, new_rva) {
            Some(s) => r is Ok && r->Ok_0@ == s && s.len() == resources@.len(),
            None => r is Err && r->Err_0.kind() == ErrorKind::BadImage,
        },
{
    let mut buf: Vec<u8> = Vec::new();
    bytes::append(&mut buf, resources);
    proof {
        assert(buf@ =~= resources@);
    }
    let depth: usize = buf.len();
    patch_resource_directory_table(&mut buf, 0, old_rva, new_rva, depth)?;
    Ok(buf)
}

fn advance_stopped(n: u64, at: usize, length: usize) -> (e: Error)
    ensures
        e.kind() == ErrorKind::BadImage,
        e.text() == "advance "@ + text::decimal(n as nat) + " from "@ + text::decimal(at as nat)
            + " out of bounds (length "@ + text::decimal(length as nat) + ")"@,
{
    Error::bad_image(
        Message::new("advance ").count(n).text(" from ").count(at as u64).text(
            " out of bounds (length ",
        ).count(length as u64).text(")").as_str(),
    )
}

fn read_stopped(n: u64, at: usize, length: usize) -> (e: Error)
    ensures
        e.kind() == ErrorKind::BadImage,
        e.text() == buffer::short_buffer(n as nat, at as nat, length as nat),
{
    proof {
        reveal(buffer::short_buffer);
    }
    Error::bad_image(
        Message::new("read ").count(n).text(" bytes at ").count(at as u64).text(
            " with only ",
        ).count(length as u64).text(" valid").as_str(),
    )
}

fn patch_resource_directory_table(
    buf: &mut Vec<u8>,
    at: usize,
    old_rva: u32,
    new_rva: u32,
    depth: usize,
) -> (r: Result<(), Error>)
    requires
        at <= old(buf)@.len(),
    ensures
        match patched_table(old(buf)@, at as int, old_rva, new_rva, depth as nat) {
            Some(s) => r is Ok && final(buf)@ == s && s.len() == old(buf)@.len(),
            None => r is Err && r->Err_0.kind() == ErrorKind::BadImage,
        },
    decreases depth, 0int,
{
    if depth == 0 {
        return Err(Error::bad_image("the resource tree leads back into itself"));
    }
    let length: usize = buf.len();
    if length - at < 16 {
        if length - at < 12 {
            return Err(advance_stopped(12, at, length));
        }
        return Err(
            if length - at < 14 {
                read_stopped(2, at + 12, length)
            } else {
                read_stopped(2, at + 14, length)
            },
        );
    }
    let named: u32 = bytes::get_u16(buf.as_slice(), at + 12) as u32;
    let ids: u32 = bytes::get_u16(buf.as_slice(), at + 14) as u32;
    let count: u32 = (named + ids) % 0x1_0000;
    let ghost whole = patched_table(buf@, at as int, old_rva, new_rva, depth as nat);
    let mut pos: usize = at + 16;
    let mut i: u32 = 0;
    while i < count
        invariant
            i <= count,
            depth > 0,
            buf@.len() == length,
            length == old(buf)@.len(),
            pos <= length,
            whole == patched_table(old(buf)@, at as int, old_rva, new_rva, depth as nat),
            whole == patched_entries(
                buf@,
                pos as int,
                (count - i) as nat,
                old_rva,
                new_rva,
                (depth - 1) as nat,
            ),
        decreases count - i,
    {
        patch_resource_directory_entry(buf, pos, old_rva, new_rva, depth - 1, Ghost((count - i) as nat))?;
        pos = pos + 8;
        i += 1;
    }
    Ok(())
}

fn patch_resource_directory_entry(
    buf: &mut Vec<u8>,
    at: usize,
    old_rva: u32,
    new_rva: u32,
    depth: usize,
    Ghost(n): Ghost<nat>,
) -> (r: Result<(), Error>)
    requires
        at <= old(buf)@.len(),
    ensures
        match patched_entry(old(buf)@, at as int, old_rva, new_rva, depth as nat, n) {
            Some(s) => r is Ok && final(buf)@ == s && s.len() == old(buf)@.len() && at + 8
                <= s.len(),
            None => r is Err && r->Err_0.kind() == ErrorKind::BadImage,
        },
    decreases depth, 1int,
{
    let length: usize = buf.len();
    if length - at < 8 {
        if length - at < 4 {
            return Err(advance_stopped(4, at, length));
        }
        return Err(read_stopped(4, at + 4, length));
    }
    let child: u32 = bytes::get_u32(buf.as_slice(), at + 4);
    let target: u32 = child % 0x8000_0000;
    if target as u64 > length as u64 {
        return Err(
            Error::bad_image(
                Message::new("seek ").count(target as u64).text(" beyond buffer length ").count(
                    length as u64,
                ).as_str(),
            ),
        );
    }
    if child >= 0x8000_0000 {
        patch_resource_directory_table(buf, target as usize, old_rva, new_rva, depth)
    } else {
        patch_resource_data_entry(buf, target as usize, old_rva, new_rva)
    }
}

fn patch_resource_data_entry(buf: &mut Vec<u8>, at: usize, old_rva: u32, new_rva: u32) -> (r:
    Result<(), Error>)
    requires
        at <= old(buf)@.len(),
    ensures
        match patched_data(old(buf)@, at as int, old_rva, new_rva) {
            Some(s) => r is Ok && final(buf)@ == s && s.len() == old(buf)@.len(),
            None => r is Err && r->Err_0.kind() == ErrorKind::BadImage,
        },
{
    if buf.len() - at < 4 {
        return Err(read_stopped(4, at, buf.len()));
    }
    let rva: u32 = bytes::get_u32(buf.as_slice(), at);
    let moved: u32 = rva.wrapping_sub(old_rva).wrapping_add(new_rva);
    checksum::put_u32(buf, at, moved);
    Ok(())
}

/// Moving resources to where they are changes nothing.
pub proof fn rebasing_in_place_is_identity(s: Seq<u8>, rva: u32)
    ensures
        patched_resources(s, rva, rva) matches Some(t) ==> t == s,
{
    same_table(s, 0, rva, s.len());
}

proof fn same_table(s: Seq<u8>, at: int, rva: u32, depth: nat)
    requires
        0 <= at,
    ensures
        patched_table(s, at, rva, rva, depth) matches Some(t) ==> t == s,
    decreases depth, 0int, 0int,
{
    if depth > 0 && at + 16 <= s.len() {
        same_entries(
            s,
            at + 16,
            ((bytes::u16_at(s, at + 12) + bytes::u16_at(s, at + 14)) % 0x1_0000) as nat,
            rva,
            (depth - 1) as nat,
        );
    }
}

proof fn same_entries(s: Seq<u8>, at: int, n: nat, rva: u32, depth: nat)
    requires
        0 <= at,
    ensures
        patched_entries(s, at, n, rva, rva, depth) matches Some(t) ==> t == s,
    decreases depth, n, 1int,
{
    if n > 0 {
        if at + 8 <= s.len() {
            let child = bytes::u32_at(s, at + 4);
            let target = (child % 0x8000_0000) as int;
            if child >= 0x8000_0000 {
                same_table(s, target, rva, depth);
            } else if target + 4 <= s.len() {
                bytes::u32_bytes_round_trip(s, target);
                assert(bytes::overwrite(s, target, bytes::u32_le(bytes::u32_at(s, target))) =~= s) by {
                    let part = s.subrange(target, target + 4);
                    assert(part =~= bytes::u32_le(bytes::u32_at(s, target)));
                    assert(forall|i: int| 0 <= i < 4 ==> part[i] == s[target + i]);
                }
            }
        }
        assert(patched_entry(s, at, rva, rva, depth, n) matches Some(t) ==> t == s);
        same_entries(s, at + 8, (n - 1) as nat, rva, depth);
    }
}

/// Rebasing keeps the number of bytes.
pub proof fn rebasing_keeps_length(s: Seq<u8>, old_rva: u32, new_rva: u32)
    ensures
        patched_resources(s, old_rva, new_rva) matches Some(t) ==> t.len() == s.len(),
{
    table_keeps_length(s, 0, old_rva, new_rva, s.len());
}

proof fn table_keeps_length(s: Seq<u8>, at: int, old_rva: u32, new_rva: u32, depth: nat)
    requires
        0 <= at,
    ensures
        patched_table(s, at, old_rva, new_rva, depth) matches Some(t) ==> t.len() == s.len(),
    decreases depth, 0int, 0int,
{
    if depth > 0 && at + 16 <= s.len() {
        entries_keep_length(
            s,
            at + 16,
            ((bytes::u16_at(s, at + 12) + bytes::u16_at(s, at + 14)) % 0x1_0000) as nat,
            old_rva,
            new_rva,
            (depth - 1) as nat,
        );
    }
}

proof fn entries_keep_length(s: Seq<u8>, at: int, n: nat, old_rva: u32, new_rva: u32, depth: nat)
    requires
        0 <= at,
    ensures
        patched_entries(s, at, n, old_rva, new_rva, depth) matches Some(t) ==> t.len() == s.len(),
    decreases depth, n, 1int,
{
    if n > 0 {
        let patched = patched_entry(s, at, old_rva, new_rva, depth, n);
        if at + 8 <= s.len() {
            let child = bytes::u32_at(s, at + 4);
            if child >= 0x8000_0000 {
                table_keeps_length(s, (child % 0x8000_0000) as int, old_rva, new_rva, depth);
            }
        }
        assert(patched matches Some(t) ==> t.len() == s.len());
        if let Some(t) = patched {
            entries_keep_length(t, at + 8, (n - 1) as nat, old_rva, new_rva, depth);
        }
    }
}

} // verus!
