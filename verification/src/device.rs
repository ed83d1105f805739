//! Devices and the text the device bridge reports about them: the device
//! inventory line format and the `wm size` geometry output.
use vstd::prelude::*;
use vstd::string::StrSliceExecFns;
use vstd::string::StringExecFns;
use std::path::PathBuf;
use crate::error::ScrcpyError;
use crate::text::{
    spec_trim, spec_trim_start, spec_first_space, spec_index_of, spec_count_char, spec_parse_u32,
    trim_str, parse_u32_digits, find_unique_char, str_eq, first_space, skip_spaces,
    lemma_trim_start_at,
};

verus! {

/// Path values are carried through opaquely; only the device bridge in front
/// of the operating system reads them.
#[verifier::external_type_specification]
#[verifier::external_body]
pub struct ExPathBuf(PathBuf);

/// A handle on the external device-bridge executable.
pub struct AdbClient {
    pub adb_path: PathBuf,
}

impl AdbClient {
    pub fn new(adb_path: PathBuf) -> (r: Self)
        ensures
            r.adb_path == adb_path,
    {
        Self { adb_path }
    }
}

/// A connected device: its serial and what was probed about it.
#[derive(Debug, Clone)]
pub struct Device {
    pub id: String,
    pub model: Option<String>,
    pub android_version: Option<String>,
    pub screen_size: Option<(u32, u32)>,
}

impl Device {
    pub fn new(id: String) -> (r: Self)
        ensures
            r.id == id,
            r.model is None,
            r.android_version is None,
            r.screen_size is None,
    {
        Self { id, model: None, android_version: None, screen_size: None }
    }

    pub fn with_info(id: String, model: String, android_version: String, screen_size: (u32, u32)) -> (r:
        Self)
        ensures
            r.id == id,
            r.model == Some(model),
            r.android_version == Some(android_version),
            r.screen_size == Some(screen_size),
    {
        Self {
            id,
            model: Some(model),
            android_version: Some(android_version),
            screen_size: Some(screen_size),
        }
    }
}

/// The serial an inventory line reports: its first whitespace-separated token,
/// taken exactly when the second token is `device`.
pub open spec fn spec_device_line_serial(line: Seq<char>) -> Option<Seq<char>> {
    let t1 = spec_trim_start(line);
    if t1.len() == 0 {
        None
    } else {
        let e1 = spec_first_space(t1);
        let serial = t1.take(e1);
        let m = spec_trim_start(t1.skip(e1));
        if m.len() == 0 {
            None
        } else {
            let e2 = spec_first_space(m);
            if m.take(e2) == "device"@ {
                Some(serial)
            } else {
                None
            }
        }
    }
}

/// Parse one line of the device inventory: the serial when the line's state
/// column reads exactly `device`, nothing otherwise.
pub fn parse_device_line(line: &str) -> (r: Option<String>)
    ensures
        match r {
            Some(s) => spec_device_line_serial(line@) == Some(s@),
            None => spec_device_line_serial(line@) is None,
        },
{
    let n = line.unicode_len();
    let i0 = skip_spaces(line, 0);
    let ghost t1 = spec_trim_start(line@);
    proof {
        lemma_trim_start_at(line@, i0 as int);
        assert(t1 =~= line@.subrange(i0 as int, n as int));
    }
    if i0 == n {
        return None;
    }
    let tail0 = line.substring_char(i0, n);
    let d1 = first_space(tail0);
    let e1 = i0 + d1;
    let serial = line.substring_char(i0, e1);
    proof {
        assert(serial@ =~= t1.take(d1 as int));
    }
    let i2 = skip_spaces(line, e1);
    let ghost m = spec_trim_start(t1.skip(d1 as int));
    proof {
        assert(t1.skip(d1 as int) =~= line@.skip(e1 as int));
        lemma_trim_start_at(line@.skip(e1 as int), i2 - e1);
        assert(line@.skip(e1 as int).skip(i2 - e1) =~= line@.subrange(i2 as int, n as int));
        assert(m =~= line@.subrange(i2 as int, n as int));
    }
    if i2 == n {
        return None;
    }
    let tail2 = line.substring_char(i2, n);
    let d2 = first_space(tail2);
    let tok2 = line.substring_char(i2, i2 + d2);
    proof {
        assert(tok2@ =~= m.take(d2 as int));
    }
    if str_eq(tok2, "device") {
        Some(serial.to_owned())
    } else {
        None
    }
}

/// The serials of the connected devices, from the full inventory text: every
/// line after the heading whose state column reads `device`, in order.
pub open spec fn spec_device_list(lines: Seq<Seq<char>>) -> Seq<Seq<char>>
    decreases lines.len(),
{
    if lines.len() <= 1 {
        Seq::empty()
    } else {
        let rest = spec_device_list(lines.drop_last());
        match spec_device_line_serial(lines.last()) {
            Some(s) => rest.push(s),
            None => rest,
        }
    }
}

/// Parse the device inventory given as its lines (the first line is the
/// heading): the serials whose state reads `device`, in order.
pub fn parse_device_list(lines: &Vec<String>) -> (r: Vec<String>)
    ensures
        r@.map_values(|s: String| s@) == spec_device_list(lines@.map_values(|s: String| s@)),
{
    let ghost all = lines@.map_values(|s: String| s@);
    let mut out: Vec<String> = Vec::new();
    if lines.len() <= 1 {
        proof {
            assert(out@.map_values(|s: String| s@) =~= Seq::<Seq<char>>::empty());
        }
        return out;
    }
    let mut i: usize = 1;
    proof {
        assert(all.take(1).len() <= 1);
        assert(out@.map_values(|s: String| s@) =~= spec_device_list(all.take(1)));
    }
    while i < lines.len()
        invariant
            1 <= i <= all.len(),
            all == lines@.map_values(|s: String| s@),
            lines@.len() == all.len(),
            out@.map_values(|s: String| s@) == spec_device_list(all.take(i as int)),
        decreases all.len() - i,
    {
        let ghost out_pre = out@.map_values(|s: String| s@);
        match parse_device_line(lines[i].as_str()) {
            Some(s) => {
                let ghost sv = s@;
                out.push(s);
                proof {
                    assert(out@.map_values(|s: String| s@) =~= out_pre.push(sv));
                }
            },
            None => {},
        }
        proof {
            assert(all.take(i + 1 as int).drop_last() =~= all.take(i as int));
            assert(all.take(i + 1 as int).last() == all[i as int]);
        }
        i = i + 1;
    }
    proof {
        assert(all.take(all.len() as int) =~= all);
    }
    out
}

/// What `parse_wm_size` accepts: the trimmed text must read
/// `Physical size: WxH` with exactly one `x` and a decimal number on each
/// side, each side trimmed.
pub open spec fn spec_parse_wm_size(s: Seq<char>) -> Option<(u32, u32)> {
    let t = spec_trim(s);
    if t.len() < 15 || t.take(15) != "Physical size: "@ {
        None
    } else {
        let rest = t.skip(15);
        let k = spec_index_of(rest, 'x');
        if k == -1 || spec_count_char(rest.skip(k + 1), 'x') > 0 {
            None
        } else {
            let wpart = spec_trim(rest.take(k));
            let hpart = spec_trim(rest.skip(k + 1));
            match (spec_parse_u32(wpart), spec_parse_u32(hpart)) {
                (Some(w), Some(h)) => Some((w, h)),
                _ => None,
            }
        }
    }
}

fn wm_parse_error(trimmed: &str) -> (r: ScrcpyError)
    ensures
        r is Parse,
{
    let mut msg = "Failed to parse wm size output: ".to_owned();
    msg.append(trimmed);
    ScrcpyError::Parse(msg)
}

/// Parse the physical screen geometry from the device's `wm size` output,
/// which reads `Physical size: WxH`. Malformed text yields a parse error.
pub fn parse_wm_size(output: &str) -> (r: Result<(u32, u32), ScrcpyError>)
    ensures
        match spec_parse_wm_size(output@) {
            Some(wh) => r matches Ok(p) && p == wh,
            None => r matches Err(e) && e is Parse,
        },
{
    let trimmed = trim_str(output);
    let n = trimmed.unicode_len();
    proof {
        reveal_strlit("Physical size: ");
    }
    if n < 15 {
        proof {
            if trimmed@.take(15) == "Physical size: "@ {
                assert(trimmed@.take(15).len() == 15);
            }
        }
        return Err(wm_parse_error(trimmed));
    }
    let head = trimmed.substring_char(0, 15);
    if !str_eq(head, "Physical size: ") {
        proof {
            assert(trimmed@.subrange(0, 15) =~= trimmed@.take(15));
        }
        return Err(wm_parse_error(trimmed));
    }
    proof {
        assert(trimmed@.subrange(0, 15) =~= trimmed@.take(15));
    }
    let rest = trimmed.substring_char(15, n);
    proof {
        assert(rest@ =~= trimmed@.skip(15));
    }
    let k = match find_unique_char(rest, 'x') {
        Some(k) => k,
        None => {
            return Err(wm_parse_error(trimmed));
        },
    };
    let rn = rest.unicode_len();
    let wstr = trim_str(rest.substring_char(0, k));
    let hstr = trim_str(rest.substring_char(k + 1, rn));
    proof {
        assert(rest@.subrange(0, k as int) =~= rest@.take(k as int));
        assert(rest@.subrange(k + 1 as int, rn as int) =~= rest@.skip(k + 1 as int));
    }
    let w = match parse_u32_digits(wstr) {
        Some(w) => w,
        None => {
            return Err(ScrcpyError::Parse("Invalid width".to_owned()));
        },
    };
    let h = match parse_u32_digits(hstr) {
        Some(h) => h,
        None => {
            return Err(ScrcpyError::Parse("Invalid height".to_owned()));
        },
    };
    Ok((w, h))
}

/// Whether some device in the inventory has this serial.
pub open spec fn spec_has_device(devices: Seq<String>, d: Seq<char>) -> bool {
    exists|i: int| 0 <= i < devices.len() && (#[trigger] devices[i])@ == d
}

/// Pick the device to mirror: the requested serial when it is connected, the
/// first device otherwise; an absent requested serial and an empty inventory
/// are failures.
pub fn select_device(devices: &Vec<String>, requested: &Option<String>) -> (r: Result<
    String,
    ScrcpyError,
>)
    ensures
        match requested {
            Some(d) => {
                if spec_has_device(devices@, d@) {
                    r matches Ok(s) && s@ == d@
                } else {
                    r matches Err(e) && e is DeviceNotFound
                }
            },
            None => {
                if devices@.len() > 0 {
                    r matches Ok(s) && s@ == devices@[0]@
                } else {
                    r matches Err(e) && e is DeviceNotFound
                }
            },
        },
{
    match requested {
        Some(d) => {
            let mut i: usize = 0;
            while i < devices.len()
                invariant
                    i <= devices@.len(),
                    *requested == Some(*d),
                    forall|j: int| 0 <= j < i ==> (#[trigger] devices@[j])@ != d@,
                decreases devices@.len() - i,
            {
                if devices[i].eq(d) {
                    proof {
                        assert(spec_has_device(devices@, d@)) by {
                            assert((devices@[i as int])@ == d@);
                        }
                    }
                    return Ok(d.as_str().to_owned());
                }
                i = i + 1;
            }
            Err(ScrcpyError::DeviceNotFound)
        },
        None => {
            if devices.len() > 0 {
                Ok(devices[0].as_str().to_owned())
            } else {
                Err(ScrcpyError::DeviceNotFound)
            }
        },
    }
}

} // verus!
