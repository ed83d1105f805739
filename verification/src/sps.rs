//! H.264 Sequence Parameter Set parsing: extracting the coded video
//! resolution, including the High-profile extension fields and frame cropping,
//! proved against a specification-level mirror of the decode.
use vstd::prelude::*;
use crate::bits::{
    BitReader, spec_read_bits, spec_read_ue, spec_read_se, lemma_bits_value_bound,
};
use vstd::arithmetic::power2::{pow2, lemma2_to64};
use vstd::arithmetic::div_mod::lemma_mod_multiples_vanish;

verus! {

/// The profile identifiers whose SPS carries the extension block (chroma
/// format, bit depths, scaling lists) before the dimension fields.
pub open spec fn spec_is_high_profile(profile_idc: u32) -> bool {
    ||| profile_idc == 100
    ||| profile_idc == 110
    ||| profile_idc == 122
    ||| profile_idc == 244
    ||| profile_idc == 44
    ||| profile_idc == 83
    ||| profile_idc == 86
    ||| profile_idc == 118
    ||| profile_idc == 128
    ||| profile_idc == 138
    ||| profile_idc == 139
    ||| profile_idc == 134
    ||| profile_idc == 135
}

fn is_high_profile(profile_idc: u32) -> (r: bool)
    ensures
        r == spec_is_high_profile(profile_idc),
{
    profile_idc == 100 || profile_idc == 110 || profile_idc == 122 || profile_idc == 244
        || profile_idc == 44 || profile_idc == 83 || profile_idc == 86 || profile_idc == 118
        || profile_idc == 128 || profile_idc == 138 || profile_idc == 139 || profile_idc == 134
        || profile_idc == 135
}

/// The position after one scaling list of `count` remaining entries, starting
/// from scales `last` and `next`: a delta is read for each entry until
/// `next` reaches zero, as the H.264 scaling-list syntax prescribes.
pub open spec fn spec_skip_scaling_list(
    data: Seq<u8>,
    pos: int,
    count: nat,
    last: int,
    next: int,
) -> Option<int>
    decreases count,
{
    if count == 0 {
        Some(pos)
    } else if next == 0 {
        Some(pos)
    } else {
        match spec_read_se(data, pos) {
            None => None,
            Some((delta, p)) => {
                let new_next = (last + delta) % 256;
                let new_last = if new_next == 0 {
                    last
                } else {
                    new_next
                };
                spec_skip_scaling_list(data, p, (count - 1) as nat, new_last, new_next)
            },
        }
    }
}

/// The position after the scaling-list block: one presence flag per list from
/// index `i` up to `total`, and for each present list its entries (16 for the
/// first six lists, 64 after).
pub open spec fn spec_skip_scaling_lists(data: Seq<u8>, pos: int, i: nat, total: nat) -> Option<
    int,
>
    decreases total - i,
{
    if i >= total {
        Some(pos)
    } else {
        match spec_read_bits(data, pos, 1) {
            None => None,
            Some((flag, p)) => {
                if flag == 1 {
                    let size: nat = if i < 6 {
                        16
                    } else {
                        64
                    };
                    match spec_skip_scaling_list(data, p, size, 8, 8) {
                        None => None,
                        Some(p2) => spec_skip_scaling_lists(data, p2, i + 1, total),
                    }
                } else {
                    spec_skip_scaling_lists(data, p, i + 1, total)
                }
            },
        }
    }
}

/// The position after `n` signed Exp-Golomb values.
pub open spec fn spec_skip_ses(data: Seq<u8>, pos: int, n: nat) -> Option<int>
    decreases n,
{
    if n == 0 {
        Some(pos)
    } else {
        match spec_read_se(data, pos) {
            None => None,
            Some((_v, p)) => spec_skip_ses(data, p, (n - 1) as nat),
        }
    }
}

/// The position after the High-profile extension block, or `pos` unchanged for
/// the other profiles.
pub open spec fn spec_skip_profile_ext(data: Seq<u8>, pos: int, profile_idc: u32) -> Option<int> {
    if !spec_is_high_profile(profile_idc) {
        Some(pos)
    } else {
        match spec_read_ue(data, pos) {
            None => None,
            Some((chroma_format_idc, p1)) => {
                let sep = if chroma_format_idc == 3 {
                    spec_read_bits(data, p1, 1)
                } else {
                    Some((0u32, p1))
                };
                match sep {
                    None => None,
                    Some((_f, p2)) => match spec_read_ue(data, p2) {
                        None => None,
                        Some((_bd_luma, p3)) => match spec_read_ue(data, p3) {
                            None => None,
                            Some((_bd_chroma, p4)) => match spec_read_bits(data, p4, 1) {
                                None => None,
                                Some((_bypass, p5)) => match spec_read_bits(data, p5, 1) {
                                    None => None,
                                    Some((scaling_present, p6)) => {
                                        if scaling_present == 1 {
                                            let total: nat = if chroma_format_idc != 3 {
                                                8
                                            } else {
                                                12
                                            };
                                            spec_skip_scaling_lists(data, p6, 0, total)
                                        } else {
                                            Some(p6)
                                        }
                                    },
                                },
                            },
                        },
                    },
                }
            },
        }
    }
}

/// The position after the picture-order-count fields, which depend on
/// `pic_order_cnt_type`.
pub open spec fn spec_skip_poc(data: Seq<u8>, pos: int) -> Option<int> {
    match spec_read_ue(data, pos) {
        None => None,
        Some((poc_type, p1)) => {
            if poc_type == 0 {
                match spec_read_ue(data, p1) {
                    None => None,
                    Some((_lsb, p2)) => Some(p2),
                }
            } else if poc_type == 1 {
                match spec_read_bits(data, p1, 1) {
                    None => None,
                    Some((_always_zero, p2)) => match spec_read_se(data, p2) {
                        None => None,
                        Some((_off_non_ref, p3)) => match spec_read_se(data, p3) {
                            None => None,
                            Some((_off_ttb, p4)) => match spec_read_ue(data, p4) {
                                None => None,
                                Some((num_ref, p5)) => spec_skip_ses(data, p5, num_ref as nat),
                            },
                        },
                    },
                }
            } else {
                Some(p1)
            }
        },
    }
}

/// The dimension fields from `pic_width_in_mbs_minus1` onward, and the final
/// width and height after cropping:
///
/// ```text
/// width  = (pic_width_in_mbs_minus1 + 1) * 16 - 2*(crop_left + crop_right)
/// height = (pic_height_in_map_units_minus1 + 1) * 16 * (2 - frame_mbs_only_flag)
///          - 2*(crop_top + crop_bottom)
/// ```
///
/// A result outside `1..=u32::MAX` in either dimension is treated as
/// malformed.
pub open spec fn spec_parse_dimensions(data: Seq<u8>, pos: int) -> Option<(u32, u32)> {
    match spec_read_ue(data, pos) {
        None => None,
        Some((w_mbs, p1)) => match spec_read_ue(data, p1) {
            None => None,
            Some((h_units, p2)) => match spec_read_bits(data, p2, 1) {
                None => None,
                Some((frame_mbs_only, p3)) => {
                    let adaptive = if frame_mbs_only == 0 {
                        spec_read_bits(data, p3, 1)
                    } else {
                        Some((0u32, p3))
                    };
                    match adaptive {
                        None => None,
                        Some((_a, p4)) => match spec_read_bits(data, p4, 1) {
                            None => None,
                            Some((_direct8x8, p5)) => match spec_read_bits(data, p5, 1) {
                                None => None,
                                Some((cropping, p6)) => {
                                    let crops = if cropping == 1 {
                                        match spec_read_ue(data, p6) {
                                            None => None,
                                            Some((cl, q1)) => match spec_read_ue(data, q1) {
                                                None => None,
                                                Some((cr, q2)) => match spec_read_ue(data, q2) {
                                                    None => None,
                                                    Some((ct, q3)) => match spec_read_ue(
                                                        data,
                                                        q3,
                                                    ) {
                                                        None => None,
                                                        Some((cb, _q4)) => Some(
                                                            (cl as int, cr as int, ct as int, cb as int),
                                                        ),
                                                    },
                                                },
                                            },
                                        }
                                    } else {
                                        Some((0int, 0int, 0int, 0int))
                                    };
                                    match crops {
                                        None => None,
                                        Some((cl, cr, ct, cb)) => {
                                            let w = (w_mbs + 1) * 16 - 2 * cl - 2 * cr;
                                            let h = (h_units + 1) * 16 * (2 - frame_mbs_only) - 2
                                                * ct - 2 * cb;
                                            if 1 <= w <= 0xFFFF_FFFFu32 && 1 <= h
                                                <= 0xFFFF_FFFFu32 {
                                                Some((w as u32, h as u32))
                                            } else {
                                                None
                                            }
                                        },
                                    }
                                },
                            },
                        },
                    }
                },
            },
        },
    }
}

/// What `parse_sps_resolution` yields on a raw SPS NAL unit (header byte
/// included, start code stripped): the coded width and height, or nothing on
/// truncated or malformed input.
pub open spec fn spec_parse_sps(data: Seq<u8>) -> Option<(u32, u32)> {
    if data.len() < 4 {
        None
    } else {
        match spec_read_bits(data, 0, 8) {
            None => None,
            Some((_nal_header, p1)) => match spec_read_bits(data, p1, 8) {
                None => None,
                Some((profile_idc, p2)) => match spec_read_bits(data, p2, 8) {
                    None => None,
                    Some((_constraints, p3)) => match spec_read_bits(data, p3, 8) {
                        None => None,
                        Some((_level_idc, p4)) => match spec_read_ue(data, p4) {
                            None => None,
                            Some((_sps_id, p5)) => match spec_skip_profile_ext(
                                data,
                                p5,
                                profile_idc,
                            ) {
                                None => None,
                                Some(p6) => match spec_read_ue(data, p6) {
                                    None => None,
                                    Some((_log2_max_frame_num, p7)) => match spec_skip_poc(
                                        data,
                                        p7,
                                    ) {
                                        None => None,
                                        Some(p8) => match spec_read_ue(data, p8) {
                                            None => None,
                                            Some((_max_num_ref, p9)) => match spec_read_bits(
                                                data,
                                                p9,
                                                1,
                                            ) {
                                                None => None,
                                                Some((_gaps_flag, p10)) => spec_parse_dimensions(
                                                    data,
                                                    p10,
                                                ),
                                            },
                                        },
                                    },
                                },
                            },
                        },
                    },
                },
            },
        }
    }
}

/// `(last + delta) mod 256`, the next-scale recurrence of the scaling-list
/// syntax, computed without overflow for any `delta`.
fn next_scale_mod(last: u32, delta: i32) -> (r: u32)
    requires
        last < 256,
    ensures
        r == (last + delta) % 256,
        r < 256,
{
    let s: i64 = (last as i64) + (delta as i64) + 0x8000_0000i64;
    let su: u64 = s as u64;
    proof {
        lemma_mod_multiples_vanish(0x80_0000int, last + delta, 256int);
    }
    (su % 256) as u32
}

/// Skip one scaling list of `size` entries. Returns false when the data runs
/// out, in which case the specification mirror is also exhausted.
fn skip_scaling_list(reader: &mut BitReader, size: u32) -> (ok: bool)
    requires
        old(reader).wf(),
    ensures
        final(reader).wf(),
        final(reader).spec_data() == old(reader).spec_data(),
        match spec_skip_scaling_list(
            old(reader).spec_data(),
            old(reader).pos(),
            size as nat,
            8,
            8,
        ) {
            Some(p) => ok && final(reader).pos() == p,
            None => !ok,
        },
{
    let ghost data = reader.spec_data();
    let ghost pos0 = reader.pos();
    let mut last_scale: u32 = 8;
    let mut next_scale: u32 = 8;
    let mut j: u32 = 0;
    while j < size
        invariant
            reader.wf(),
            reader.spec_data() == data,
            data == old(reader).spec_data(),
            pos0 == old(reader).pos(),
            j <= size,
            last_scale < 256,
            next_scale < 256,
            spec_skip_scaling_list(data, pos0, size as nat, 8, 8) == spec_skip_scaling_list(
                data,
                reader.pos(),
                (size - j) as nat,
                last_scale as int,
                next_scale as int,
            ),
        decreases size - j,
    {
        if next_scale != 0 {
            let delta = match reader.read_se() {
                Some(d) => d,
                None => {
                    return false;
                },
            };
            next_scale = next_scale_mod(last_scale, delta);
        }
        if next_scale != 0 {
            last_scale = next_scale;
        }
        j = j + 1;
    }
    true
}

/// Skip the per-list presence flags and present scaling lists, `total` lists
/// in all.
fn skip_scaling_lists(reader: &mut BitReader, total: u32) -> (ok: bool)
    requires
        old(reader).wf(),
        total <= 12,
    ensures
        final(reader).wf(),
        final(reader).spec_data() == old(reader).spec_data(),
        match spec_skip_scaling_lists(
            old(reader).spec_data(),
            old(reader).pos(),
            0,
            total as nat,
        ) {
            Some(p) => ok && final(reader).pos() == p,
            None => !ok,
        },
{
    let ghost data = reader.spec_data();
    let ghost pos0 = reader.pos();
    let mut i: u32 = 0;
    while i < total
        invariant
            reader.wf(),
            reader.spec_data() == data,
            data == old(reader).spec_data(),
            pos0 == old(reader).pos(),
            i <= total,
            spec_skip_scaling_lists(data, pos0, 0, total as nat) == spec_skip_scaling_lists(
                data,
                reader.pos(),
                i as nat,
                total as nat,
            ),
        decreases total - i,
    {
        let flag = match reader.read_bits(1) {
            Some(f) => f,
            None => {
                return false;
            },
        };
        if flag == 1 {
            let size: u32 = if i < 6 {
                16
            } else {
                64
            };
            if !skip_scaling_list(reader, size) {
                return false;
            }
        }
        i = i + 1;
    }
    true
}

/// Skip `n` signed Exp-Golomb values.
fn skip_ses(reader: &mut BitReader, n: u32) -> (ok: bool)
    requires
        old(reader).wf(),
    ensures
        final(reader).wf(),
        final(reader).spec_data() == old(reader).spec_data(),
        match spec_skip_ses(old(reader).spec_data(), old(reader).pos(), n as nat) {
            Some(p) => ok && final(reader).pos() == p,
            None => !ok,
        },
{
    let ghost data = reader.spec_data();
    let ghost pos0 = reader.pos();
    let mut k: u32 = 0;
    while k < n
        invariant
            reader.wf(),
            reader.spec_data() == data,
            data == old(reader).spec_data(),
            pos0 == old(reader).pos(),
            k <= n,
            spec_skip_ses(data, pos0, n as nat) == spec_skip_ses(
                data,
                reader.pos(),
                (n - k) as nat,
            ),
        decreases n - k,
    {
        match reader.read_se() {
            Some(_v) => {},
            None => {
                return false;
            },
        }
        k = k + 1;
    }
    true
}

/// Skip the High-profile extension block when `profile_idc` calls for one.
fn skip_profile_ext(reader: &mut BitReader, profile_idc: u32) -> (ok: bool)
    requires
        old(reader).wf(),
    ensures
        final(reader).wf(),
        final(reader).spec_data() == old(reader).spec_data(),
        match spec_skip_profile_ext(old(reader).spec_data(), old(reader).pos(), profile_idc) {
            Some(p) => ok && final(reader).pos() == p,
            None => !ok,
        },
{
    if !is_high_profile(profile_idc) {
        return true;
    }
    let chroma_format_idc = match reader.read_ue() {
        Some(v) => v,
        None => {
            return false;
        },
    };
    if chroma_format_idc == 3 {
        match reader.read_bits(1) {
            Some(_f) => {},
            None => {
                return false;
            },
        }
    }
    match reader.read_ue() {
        Some(_bd_luma) => {},
        None => {
            return false;
        },
    }
    match reader.read_ue() {
        Some(_bd_chroma) => {},
        None => {
            return false;
        },
    }
    match reader.read_bits(1) {
        Some(_bypass) => {},
        None => {
            return false;
        },
    }
    let scaling_present = match reader.read_bits(1) {
        Some(f) => f,
        None => {
            return false;
        },
    };
    if scaling_present == 1 {
        let total: u32 = if chroma_format_idc != 3 {
            8
        } else {
            12
        };
        return skip_scaling_lists(reader, total);
    }
    true
}

/// Skip the picture-order-count fields.
fn skip_poc(reader: &mut BitReader) -> (ok: bool)
    requires
        old(reader).wf(),
    ensures
        final(reader).wf(),
        final(reader).spec_data() == old(reader).spec_data(),
        match spec_skip_poc(old(reader).spec_data(), old(reader).pos()) {
            Some(p) => ok && final(reader).pos() == p,
            None => !ok,
        },
{
    let poc_type = match reader.read_ue() {
        Some(v) => v,
        None => {
            return false;
        },
    };
    if poc_type == 0 {
        match reader.read_ue() {
            Some(_lsb) => true,
            None => false,
        }
    } else if poc_type == 1 {
        match reader.read_bits(1) {
            Some(_always_zero) => {},
            None => {
                return false;
            },
        }
        match reader.read_se() {
            Some(_off) => {},
            None => {
                return false;
            },
        }
        match reader.read_se() {
            Some(_off) => {},
            None => {
                return false;
            },
        }
        let num_ref = match reader.read_ue() {
            Some(v) => v,
            None => {
                return false;
            },
        };
        skip_ses(reader, num_ref)
    } else {
        true
    }
}

/// Read the dimension fields and compute the cropped width and height.
fn parse_dimensions(reader: &mut BitReader) -> (r: Option<(u32, u32)>)
    requires
        old(reader).wf(),
    ensures
        r == spec_parse_dimensions(old(reader).spec_data(), old(reader).pos()),
{
    let ghost data = reader.spec_data();
    let w_mbs = match reader.read_ue() {
        Some(v) => v,
        None => {
            return None;
        },
    };
    let h_units = match reader.read_ue() {
        Some(v) => v,
        None => {
            return None;
        },
    };
    let ghost pos_fmo = reader.pos();
    let frame_mbs_only = match reader.read_bits(1) {
        Some(v) => v,
        None => {
            return None;
        },
    };
    proof {
        lemma_bits_value_bound(data, pos_fmo, 1);
        lemma2_to64();
    }
    if frame_mbs_only == 0 {
        match reader.read_bits(1) {
            Some(_adaptive) => {},
            None => {
                return None;
            },
        }
    }
    match reader.read_bits(1) {
        Some(_direct8x8) => {},
        None => {
            return None;
        },
    }
    let cropping = match reader.read_bits(1) {
        Some(v) => v,
        None => {
            return None;
        },
    };
    let mut crop_left: u32 = 0;
    let mut crop_right: u32 = 0;
    let mut crop_top: u32 = 0;
    let mut crop_bottom: u32 = 0;
    if cropping == 1 {
        crop_left = match reader.read_ue() {
            Some(v) => v,
            None => {
                return None;
            },
        };
        crop_right = match reader.read_ue() {
            Some(v) => v,
            None => {
                return None;
            },
        };
        crop_top = match reader.read_ue() {
            Some(v) => v,
            None => {
                return None;
            },
        };
        crop_bottom = match reader.read_ue() {
            Some(v) => v,
            None => {
                return None;
            },
        };
    }
    let w_units: u64 = (w_mbs as u64 + 1) * 16;
    let h_map: u64 = (h_units as u64 + 1) * 16;
    let h_frames: u64 = if frame_mbs_only == 0 {
        h_map * 2
    } else {
        h_map
    };
    let crop_w: u64 = (crop_left as u64) * 2 + (crop_right as u64) * 2;
    let crop_h: u64 = (crop_top as u64) * 2 + (crop_bottom as u64) * 2;
    if w_units <= crop_w || h_frames <= crop_h {
        return None;
    }
    let w: u64 = w_units - crop_w;
    let h: u64 = h_frames - crop_h;
    if w > 0xFFFF_FFFF || h > 0xFFFF_FFFF {
        return None;
    }
    Some((w as u32, h as u32))
}

/// Parse a raw SPS NAL unit (without start code, with its NAL header byte)
/// and return the coded resolution `(width, height)`, or `None` on truncated
/// or malformed input.
pub fn parse_sps_resolution(sps_data: &[u8]) -> (r: Option<(u32, u32)>)
    ensures
        r == spec_parse_sps(sps_data@),
{
    if sps_data.len() < 4 {
        return None;
    }
    let mut reader = BitReader::new(sps_data);
    match reader.read_bits(8) {
        Some(_nal_header) => {},
        None => {
            return None;
        },
    }
    let profile_idc = match reader.read_bits(8) {
        Some(v) => v,
        None => {
            return None;
        },
    };
    match reader.read_bits(8) {
        Some(_constraints) => {},
        None => {
            return None;
        },
    }
    match reader.read_bits(8) {
        Some(_level_idc) => {},
        None => {
            return None;
        },
    }
    match reader.read_ue() {
        Some(_sps_id) => {},
        None => {
            return None;
        },
    }
    if !skip_profile_ext(&mut reader, profile_idc) {
        return None;
    }
    match reader.read_ue() {
        Some(_log2_max_frame_num) => {},
        None => {
            return None;
        },
    }
    if !skip_poc(&mut reader) {
        return None;
    }
    match reader.read_ue() {
        Some(_max_num_ref) => {},
        None => {
            return None;
        },
    }
    match reader.read_bits(1) {
        Some(_gaps_flag) => {},
        None => {
            return None;
        },
    }
    parse_dimensions(&mut reader)
}

} // verus!
