//! Discovering drives from the ripping tool's enumeration output.

use vstd::prelude::*;
use crate::model::{Device, DeviceView};
use crate::protocol::{csv_fields, parse_csv_line};
use crate::text::{has_prefix, starts_with, trim_text, trimmed};

verus! {

/// The tag of drive records.
pub open spec fn drive_tag() -> Seq<char> {
    seq!['D', 'R', 'V', ':']
}

/// The drive that one line of enumeration output describes, if any: a drive
/// record with a description, a name and a path (columns 4, 5 and 6, white
/// space trimmed), none of them empty.
pub open spec fn drive_of_line(line: Seq<char>) -> Option<DeviceView> {
    let cols = csv_fields(line);
    if has_prefix(cols[0], drive_tag()) && cols.len() > 6 {
        let d = DeviceView { name: trimmed(cols[5]), description: trimmed(cols[4]), path: trimmed(cols[6]) };
        if d.name.len() > 0 && d.description.len() > 0 && d.path.len() > 0 {
            Some(d)
        } else {
            None
        }
    } else {
        None
    }
}

/// The drives that `lines` describe, in order.
pub open spec fn drives_of(lines: Seq<Seq<char>>) -> Seq<DeviceView>
    decreases lines.len(),
{
    if lines.len() == 0 {
        Seq::empty()
    } else {
        match drive_of_line(lines.last()) {
            Some(d) => drives_of(lines.drop_last()).push(d),
            None => drives_of(lines.drop_last()),
        }
    }
}

/// Why no drive list could be given.
#[derive(Debug, Clone, Copy, PartialEq, Eq)]
pub enum DeviceError {
    /// The enumeration output names no usable drive.
    NoDevices,
}

/// Reads the drive of one line of enumeration output, if it describes one.
pub fn drive_from_line(line: &str) -> (r: Option<Device>)
    ensures
        match drive_of_line(line@) {
            Some(d) => r is Some && r->0@ == d,
            None => r is None,
        },
{
    let columns = parse_csv_line(line);
    let tag = "DRV:";
    proof {
        reveal_strlit("DRV:");
        assert(tag@ =~= drive_tag());
    }
    if !starts_with(columns[0].as_str(), tag) || columns.len() <= 6 {
        return None;
    }
    let description = trim_text(columns[4].as_str());
    let name = trim_text(columns[5].as_str());
    let path = trim_text(columns[6].as_str());
    if name.as_str().unicode_len() > 0 && description.as_str().unicode_len() > 0 && path.as_str().unicode_len() > 0 {
        Some(Device { name, description, path })
    } else {
        None
    }
}

/// The drives that the ripping tool's enumeration output lists, in order;
/// an error where it lists none.
pub fn detect_devices(lines: &Vec<String>) -> (r: Result<Vec<Device>, DeviceError>)
    ensures
        drives_of(crate::protocol::views(lines@)).len() == 0 ==> r == Err::<Vec<Device>, DeviceError>(DeviceError::NoDevices),
        drives_of(crate::protocol::views(lines@)).len() > 0 ==> r is Ok
            && r->Ok_0@.map_values(|d: Device| d@) == drives_of(crate::protocol::views(lines@)),
{
    let ghost ls = crate::protocol::views(lines@);
    let mut devices: Vec<Device> = Vec::new();
    let mut i: usize = 0;
    while i < lines.len()
        invariant
            i <= lines@.len(),
            ls == crate::protocol::views(lines@),
            devices@.map_values(|d: Device| d@) == drives_of(ls.take(i as int)),
        decreases lines@.len() - i,
    {
        assert(ls.take(i + 1).drop_last() =~= ls.take(i as int));
        match drive_from_line(lines[i].as_str()) {
            Some(d) => {
                let ghost before = devices@.map_values(|d: Device| d@);
                let ghost dv = d@;
                devices.push(d);
                assert(devices@.map_values(|d: Device| d@) =~= before.push(dv));
            },
            None => {},
        }
        i = i + 1;
    }
    assert(ls.take(lines@.len() as int) =~= ls);
    if devices.len() == 0 {
        return Err(DeviceError::NoDevices);
    }
    Ok(devices)
}

} // verus!
