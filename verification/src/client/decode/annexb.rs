//! Just enough Annex-B parsing to tell whether a payload can start a stream.
//!
//! The client cannot rely on `frame_flag::KEYFRAME` alone. It is set by the agent, and an agent
//! that mislabels one frame would either hand the decoder inter-coded data with no reference
//! picture (garbage on screen) or strand a client that joined mid-stream forever. Reading the NAL
//! headers is a dozen lines and makes the decision from the bitstream itself.
//!
//! The scan looks for an IDR slice specifically: an access unit can be intra-coded without being
//! an IDR, and starting there guarantees nothing, so "any intra frame" is exactly the relaxation
//! that must not be made. Parameter sets are not accepted as a start signal either: they
//! accompany the IDR in the same access unit, so an SPS without an IDR beside it is not a picture
//! and starting on one would let the *next* frame reach the decoder with no reference
//! picture.

use vstd::prelude::*;

use crate::text;

verus! {

/// Coded slice of a non-IDR picture.
pub const NAL_SLICE: u8 = 1;

/// Coded slice of an IDR picture.
pub const NAL_IDR: u8 = 5;

/// Sequence parameter set.
pub const NAL_SPS: u8 = 7;

/// Picture parameter set.
pub const NAL_PPS: u8 = 8;

/// Whether a start code with a header byte behind it stands at `i`. The 4-byte start code
/// contains the 3-byte form at its second byte, so looking for the short form finds both.
pub open spec fn starts_at(data: Seq<u8>, i: int) -> bool {
    &&& i + 3 < data.len()
    &&& data[i] == 0
    &&& data[i + 1] == 0
    &&& data[i + 2] == 1
}

/// Where the NAL headers are that a reader finds from `from` on. A header byte is not looked at
/// again as part of another start code.
pub open spec fn headers(data: Seq<u8>, from: int) -> Seq<int>
    decreases data.len() - from,
{
    if from + 3 >= data.len() {
        Seq::empty()
    } else if starts_at(data, from) {
        seq![from + 3] + headers(data, from + 4)
    } else {
        headers(data, from + 1)
    }
}

/// The type in a NAL header.
pub open spec fn type_of(header: u8) -> u8 {
    header & 0x1f
}

/// Whether a header byte is one: its first bit must be clear.
pub open spec fn is_header(header: u8) -> bool {
    header & 0x80 == 0
}

/// Headers lie within the data, behind a start code, in ascending order.
proof fn lemma_headers(data: Seq<u8>, from: int)
    requires
        0 <= from,
    ensures
        forall|k: int|
            0 <= k < headers(data, from).len() ==> from + 3 <= #[trigger] headers(data, from)[k]
                < data.len(),
        forall|j: int, k: int|
            0 <= j < k < headers(data, from).len() ==> headers(data, from)[j] + 4 <= headers(
                data,
                from,
            )[k],
    decreases data.len() - from,
{
    let all = headers(data, from);
    if from + 3 >= data.len() {
        assert(all == Seq::<int>::empty());
    } else if starts_at(data, from) {
        lemma_headers(data, from + 4);
        let rest = headers(data, from + 4);
        assert(all == seq![from + 3] + rest);
        assert forall|k: int| 0 <= k < all.len() implies from + 3 <= #[trigger] all[k]
            < data.len() by {
            if k > 0 {
                assert(all[k] == rest[k - 1]);
            }
        }
        assert forall|j: int, k: int| 0 <= j < k < all.len() implies all[j] + 4 <= all[k] by {
            assert(all[k] == rest[k - 1]);
            if j > 0 {
                assert(all[j] == rest[j - 1]);
            }
        }
    } else {
        lemma_headers(data, from + 1);
        assert(all == headers(data, from + 1));
    }
}

/// Whether an Annex-B payload carries an IDR slice.
pub open spec fn has_idr(data: Seq<u8>) -> bool {
    exists|k: int|
        0 <= k < headers(data, 0).len() && is_header(data[#[trigger] headers(data, 0)[k]])
            && type_of(data[headers(data, 0)[k]]) == NAL_IDR
}

/// Whether an Annex-B payload carries an IDR slice, and can therefore start a decode.
///
/// Both start code forms are accepted: the agent emits the 4-byte `00 00 00 01`, but a
/// general-purpose Annex-B demuxer produces the 3-byte `00 00 01` and rejecting that buys
/// nothing. NAL types with no bearing on the question (SEI, access unit delimiters, filler,
/// anything unrecognised) are skipped rather than treated as an error.
pub fn contains_idr(data: &[u8]) -> (r: bool)
    ensures
        r == has_idr(data@),
{
    let ghost all = headers(data@, 0);
    let ghost mut seen: Seq<int> = Seq::empty();
    let mut index: usize = 0;
    assert(seen + headers(data@, 0) =~= all);
    while index < data.len() && data.len() - index > 3
        invariant
            all == headers(data@, 0),
            all == seen + headers(data@, index as int),
            index <= data.len() + 4,
            forall|k: int|
                0 <= k < seen.len() ==> !(is_header(data@[#[trigger] seen[k]]) && type_of(
                    data@[seen[k]],
                ) == NAL_IDR),
        decreases data.len() + 4 - index,
    {
        if data[index] == 0 && data[index + 1] == 0 && data[index + 2] == 1 {
            let header: u8 = data[index + 3];
            let ghost rest = headers(data@, index + 4);
            assert(headers(data@, index as int) == seq![index + 3] + rest);
            // forbidden_zero_bit must be 0; anything else is not a NAL header.
            if header & 0x80 == 0 && header & 0x1f == NAL_IDR {
                assert(all[seen.len() as int] == index + 3);
                return true;
            }
            proof {
                seen = seen.push(index + 3);
                assert(all =~= seen + rest);
            }
            index = index + 4;
        } else {
            index = index + 1;
        }
    }
    assert(all =~= seen);
    false
}

/// Where the NAL headers are.
fn header_offsets(data: &[u8]) -> (r: Vec<usize>)
    ensures
        r@.map_values(|i: usize| i as int) == headers(data@, 0),
{
    let ghost all = headers(data@, 0);
    let mut found: Vec<usize> = Vec::new();
    let mut index: usize = 0;
    assert(found@.map_values(|i: usize| i as int) + all =~= all);
    while index < data.len() && data.len() - index > 3
        invariant
            all == headers(data@, 0),
            all == found@.map_values(|i: usize| i as int) + headers(data@, index as int),
            index <= data.len() + 4,
        decreases data.len() + 4 - index,
    {
        if data[index] == 0 && data[index + 1] == 0 && data[index + 2] == 1 {
            let ghost before = found@.map_values(|i: usize| i as int);
            let ghost rest = headers(data@, index + 4);
            assert(headers(data@, index as int) == seq![index + 3] + rest);
            found.push(index + 3);
            assert(found@.map_values(|i: usize| i as int) =~= before.push(index + 3));
            assert(all =~= before.push(index + 3) + rest);
            index = index + 4;
        } else {
            index = index + 1;
        }
    }
    assert(all =~= found@.map_values(|i: usize| i as int));
    found
}

/// One NAL unit, as far as its header describes it.
#[derive(Debug, Clone, Copy, PartialEq, Eq)]
pub struct NalUnit {
    /// `nal_unit_type`.
    pub nal_type: u8,
    /// `nal_ref_idc`. Zero means the picture is **not** used as a reference by anything after
    /// it: a disposable frame. Distinguishing that from a malformed one is a different failure
    /// class entirely, and it is invisible unless something reports it.
    pub ref_idc: u8,
    /// Length in bytes, header included, start code excluded.
    pub len: usize,
}

/// Where the unit with the `k`th header ends: at the start code of the next unit, its fourth
/// leading zero included where there is one, or with the data.
pub open spec fn unit_end(data: Seq<u8>, k: int) -> int {
    let all = headers(data, 0);
    if k + 1 < all.len() {
        let code = all[k + 1] - 3;
        if data[code - 1] == 0 {
            code - 1
        } else {
            code
        }
    } else {
        data.len() as int
    }
}

/// The unit with the `k`th header.
pub open spec fn unit_at(data: Seq<u8>, k: int) -> NalUnit {
    let start = headers(data, 0)[k];
    NalUnit {
        nal_type: type_of(data[start]),
        ref_idc: (data[start] >> 5) & 0x03,
        len: (unit_end(data, k) - start) as usize,
    }
}

/// Every NAL unit in an Annex-B payload.
pub open spec fn units_of(data: Seq<u8>) -> Seq<NalUnit> {
    Seq::new(headers(data, 0).len(), |k: int| unit_at(data, k))
}

/// Every NAL unit in an Annex-B payload.
///
/// Allocates, so this is for diagnostics rather than the decode path.
pub fn units(data: &[u8]) -> (r: Vec<NalUnit>)
    ensures
        r@ == units_of(data@),
{
    let starts = header_offsets(data);
    let ghost all = headers(data@, 0);
    proof {
        lemma_headers(data@, 0);
        assert(all.len() == starts@.len());
        assert forall|k: int| 0 <= k < starts@.len() implies #[trigger] all[k] == starts@[k] by {
            assert(starts@.map_values(|i: usize| i as int)[k] == starts@[k]);
        }
    }
    let mut out: Vec<NalUnit> = Vec::new();
    let mut k: usize = 0;
    while k < starts.len()
        invariant
            k <= starts.len(),
            all == headers(data@, 0),
            all.len() == starts@.len(),
            forall|j: int| 0 <= j < starts@.len() ==> #[trigger] all[j] == starts@[j],
            forall|j: int| 0 <= j < all.len() ==> 3 <= #[trigger] all[j] < data@.len(),
            forall|i: int, j: int| 0 <= i < j < all.len() ==> all[i] + 4 <= all[j],
            out@ == units_of(data@).subrange(0, k as int),
        decreases starts.len() - k,
    {
        let start: usize = starts[k];
        assert(all[k as int] == start);
        // A unit runs to the start code of the next one. That start code is three bytes, with a
        // fourth leading zero when the encoder used the long form, and both have to be excluded
        // or every length is reported three or four bytes too long.
        let end: usize = if k + 1 < starts.len() {
            assert(all[k + 1] == starts@[k + 1]);
            assert(all[k as int] + 4 <= all[k + 1]);
            let code: usize = starts[k + 1] - 3;
            if data[code - 1] == 0 {
                code - 1
            } else {
                code
            }
        } else {
            data.len()
        };
        out.push(
            NalUnit {
                nal_type: data[start] & 0x1f,
                ref_idc: (data[start] >> 5) & 0x03,
                len: end - start,
            },
        );
        assert(out@ =~= units_of(data@).subrange(0, k + 1));
        k = k + 1;
    }
    assert(out@ =~= units_of(data@));
    out
}

/// Whether some unit of a payload is a sequence or picture parameter set.
pub open spec fn parameter_sets(data: Seq<u8>) -> bool {
    exists|k: int|
        0 <= k < units_of(data).len() && {
            let t = (#[trigger] units_of(data)[k]).nal_type;
            t == NAL_SPS || t == NAL_PPS
        }
}

/// Whether an Annex-B payload carries a sequence or picture parameter set.
///
/// These are allowed only on a keyframe, so a non-keyframe for which this is true is an encoder
/// bug rather than something a decoder should accommodate.
pub fn has_parameter_sets(data: &[u8]) -> (r: bool)
    ensures
        r == parameter_sets(data@),
{
    let units = units(data);
    let mut k: usize = 0;
    while k < units.len()
        invariant
            k <= units.len(),
            units@ == units_of(data@),
            forall|j: int|
                0 <= j < k ==> (#[trigger] units@[j]).nal_type != NAL_SPS && units@[j].nal_type
                    != NAL_PPS,
        decreases units.len() - k,
    {
        let t: u8 = units[k].nal_type;
        if t == NAL_SPS || t == NAL_PPS {
            assert(units_of(data@)[k as int].nal_type == t);
            return true;
        }
        k = k + 1;
    }
    false
}

/// Whether a unit is a coded slice.
pub open spec fn is_slice(unit: NalUnit) -> bool {
    unit.nal_type == NAL_SLICE || unit.nal_type == NAL_IDR
}

/// Whether some unit of a payload is a coded slice.
pub open spec fn has_slices(data: Seq<u8>) -> bool {
    exists|k: int| 0 <= k < units_of(data).len() && is_slice(#[trigger] units_of(data)[k])
}

/// Whether no coded slice of a payload may be referred to.
pub open spec fn only_disposable(data: Seq<u8>) -> bool {
    forall|k: int|
        0 <= k < units_of(data).len() && is_slice(#[trigger] units_of(data)[k]) ==> units_of(
            data,
        )[k].ref_idc == 0
}

/// Whether every coded slice in the payload is a non-reference picture, or `None` if there are
/// no slices at all.
///
/// A picture with `nal_ref_idc == 0` is disposable: nothing after it refers to it. A stream in
/// which whole frames are disposable is using a coding structure (temporal layers, or a profile
/// above the one this decoder implements) rather than being corrupt, and the two want completely
/// different investigations.
pub fn slices_are_non_reference(data: &[u8]) -> (r: Option<bool>)
    ensures
        match r {
            None => !has_slices(data@),
            Some(disposable) => has_slices(data@) && disposable == only_disposable(data@),
        },
{
    let units = units(data);
    let mut found = false;
    let mut disposable = true;
    let mut k: usize = 0;
    while k < units.len()
        invariant
            k <= units.len(),
            units@ == units_of(data@),
            found == (exists|j: int| 0 <= j < k && is_slice(#[trigger] units@[j])),
            disposable == (forall|j: int|
                0 <= j < k && is_slice(#[trigger] units@[j]) ==> units@[j].ref_idc == 0),
        decreases units.len() - k,
    {
        let unit = units[k];
        if unit.nal_type == NAL_SLICE || unit.nal_type == NAL_IDR {
            assert(is_slice(units@[k as int]));
            found = true;
            if unit.ref_idc != 0 {
                disposable = false;
            }
        }
        k = k + 1;
    }
    if found {
        Some(disposable)
    } else {
        None
    }
}

/// The H.264 name for a NAL unit type, for the ones worth naming.
pub open spec fn nal_name(nal_type: u8) -> Seq<char> {
    if nal_type == 1 {
        "slice"@
    } else if 2 <= nal_type <= 4 {
        "partition-"@ + text::decimal(nal_type as nat)
    } else if nal_type == 5 {
        "IDR"@
    } else if nal_type == 6 {
        "SEI"@
    } else if nal_type == 7 {
        "SPS"@
    } else if nal_type == 8 {
        "PPS"@
    } else if nal_type == 9 {
        "AUD"@
    } else if nal_type == 10 {
        "end-of-sequence"@
    } else if nal_type == 11 {
        "end-of-stream"@
    } else if nal_type == 12 {
        "filler"@
    } else if nal_type == 13 {
        "SPS-extension"@
    } else if nal_type == 14 {
        "prefix"@
    } else if nal_type == 15 {
        "subset-SPS"@
    } else if nal_type == 19 {
        "auxiliary-slice"@
    } else if nal_type == 20 {
        "slice-extension"@
    } else {
        "type-"@ + text::decimal(nal_type as nat)
    }
}

/// The H.264 name for a NAL unit type, for the ones worth naming.
fn name(nal_type: u8) -> (r: String)
    ensures
        r@ == nal_name(nal_type),
{
    let fixed = match nal_type {
        1 => "slice",
        2..=4 => "partition-",
        5 => "IDR",
        6 => "SEI",
        7 => "SPS",
        8 => "PPS",
        9 => "AUD",
        10 => "end-of-sequence",
        11 => "end-of-stream",
        12 => "filler",
        13 => "SPS-extension",
        14 => "prefix",
        15 => "subset-SPS",
        19 => "auxiliary-slice",
        20 => "slice-extension",
        _ => "type-",
    };
    let mut out = fixed.to_owned();
    if (2 <= nal_type && nal_type <= 4) || nal_type == 0 || (16 <= nal_type && nal_type <= 18)
        || nal_type >= 21 {
        text::push_decimal(&mut out, nal_type as u64);
    }
    out
}

/// A unit as `type/ref_idc(bytes)`.
pub open spec fn unit_text(unit: NalUnit) -> Seq<char> {
    nal_name(unit.nal_type) + "/"@ + text::decimal(unit.ref_idc as nat) + "("@ + text::decimal(
        unit.len as nat,
    ) + ")"@
}

/// A one-line summary of what an access unit contains.
pub open spec fn summary(data: Seq<u8>) -> Seq<char> {
    if units_of(data).len() == 0 {
        "no NAL units in "@ + text::decimal(data.len()) + " bytes"@
    } else {
        text::joined(units_of(data).map_values(|u: NalUnit| unit_text(u)), " "@)
    }
}

/// A one-line summary of what an access unit contains, as `type/ref_idc(bytes)` in order.
///
/// This is what turns "the decoder was unhappy" into "the decoder was unhappy about *this*".
/// A codec error code says only that something was rejected; the shape of the access unit is
/// what says whether the encoder sent something it should not have. `ref_idc` is in here because
/// a reference-picture problem and a malformed-bitstream problem look identical without it.
pub fn describe(data: &[u8]) -> (r: String)
    ensures
        r@ == summary(data@),
{
    let units = units(data);
    if units.len() == 0 {
        let mut out = "no NAL units in ".to_owned();
        text::push_decimal(&mut out, data.len() as u64);
        text::push_str(&mut out, " bytes");
        return out;
    }
    let mut parts: Vec<String> = Vec::new();
    let mut k: usize = 0;
    while k < units.len()
        invariant
            k <= units.len(),
            parts.len() == k,
            forall|j: int| 0 <= j < k ==> (#[trigger] parts@[j])@ == unit_text(units@[j]),
        decreases units.len() - k,
    {
        let unit = units[k];
        let mut part = name(unit.nal_type);
        text::push_str(&mut part, "/");
        text::push_decimal(&mut part, unit.ref_idc as u64);
        text::push_str(&mut part, "(");
        text::push_decimal(&mut part, unit.len as u64);
        text::push_str(&mut part, ")");
        parts.push(part);
        k = k + 1;
    }
    assert(parts@.map_values(|s: String| s@) =~= units@.map_values(|u: NalUnit| unit_text(u)));
    text::join(&parts, " ")
}

/// What an SPS says about the profile a stream is coded in.
#[derive(Debug, Clone, Copy, PartialEq, Eq)]
pub struct StreamProfile {
    /// `profile_idc`.
    pub profile_idc: u8,
    /// The `constraint_setN_flags` byte, flags in the top six bits.
    pub constraints: u8,
    /// `level_idc`; ten times the level number, so 31 is level 3.1.
    pub level_idc: u8,
}

impl StreamProfile {
    /// Whether this is Constrained Baseline.
    pub open spec fn constrained_baseline(self) -> bool {
        self.profile_idc == 66 && self.constraints & 0x40 != 0
    }

    /// The profile's usual name.
    pub open spec fn usual_name(self) -> Seq<char> {
        if self.constrained_baseline() {
            "Constrained Baseline"@
        } else if self.profile_idc == 66 {
            "Baseline"@
        } else if self.profile_idc == 77 {
            "Main"@
        } else if self.profile_idc == 88 {
            "Extended"@
        } else if self.profile_idc == 100 {
            "High"@
        } else if self.profile_idc == 110 {
            "High 10"@
        } else if self.profile_idc == 122 {
            "High 4:2:2"@
        } else if self.profile_idc == 244 {
            "High 4:4:4 Predictive"@
        } else {
            "unrecognised profile"@
        }
    }

    /// The profile's usual name.
    pub fn name(&self) -> (r: &'static str)
        ensures
            r@ == self.usual_name(),
    {
        if self.is_constrained_baseline() {
            return "Constrained Baseline";
        }
        match self.profile_idc {
            66 => "Baseline",
            77 => "Main",
            88 => "Extended",
            100 => "High",
            110 => "High 10",
            122 => "High 4:2:2",
            244 => "High 4:4:4 Predictive",
            _ => "unrecognised profile",
        }
    }

    /// The level as it is normally written, e.g. `3.1`.
    pub fn level(&self) -> (r: String)
        ensures
            r@ == text::decimal((self.level_idc / 10) as nat) + "."@ + text::decimal(
                (self.level_idc % 10) as nat,
            ),
    {
        let mut out = text::decimal_text((self.level_idc / 10) as u64);
        text::push_str(&mut out, ".");
        text::push_decimal(&mut out, (self.level_idc % 10) as u64);
        out
    }

    /// Whether `constraint_set1_flag` is set, which is what makes profile 66 *Constrained*
    /// Baseline rather than plain Baseline.
    ///
    /// This matters because it is the boundary of what the software decoder implements: Cisco's
    /// openh264 decodes Constrained Baseline. Plain Baseline additionally permits FMO, ASO and
    /// redundant slices; Main and above permit far more. A stream past that boundary can decode
    /// for a while and then fail on whichever frame first uses a tool the decoder does not have,
    /// which looks like intermittent corruption rather than the systematic mismatch it is.
    pub fn is_constrained_baseline(&self) -> (r: bool)
        ensures
            r == self.constrained_baseline(),
    {
        self.profile_idc == 66 && self.constraints & 0x40 != 0
    }
}

/// Whether the `k`th header is that of an SPS.
pub open spec fn is_sps(data: Seq<u8>, k: int) -> bool {
    let header = data[headers(data, 0)[k]];
    is_header(header) && type_of(header) == NAL_SPS
}

/// What the SPS with the `k`th header says, if the data holds that much of it.
pub open spec fn sps_profile(data: Seq<u8>, k: int) -> Option<StreamProfile> {
    let header = headers(data, 0)[k];
    if header + 4 <= data.len() {
        Some(
            StreamProfile {
                profile_idc: data[header + 1],
                constraints: data[header + 2],
                level_idc: data[header + 3],
            },
        )
    } else {
        None
    }
}

/// Whether `k` is the first header of an SPS.
pub open spec fn is_first_sps(data: Seq<u8>, k: int) -> bool {
    &&& 0 <= k < headers(data, 0).len()
    &&& is_sps(data, k)
    &&& forall|j: int| 0 <= j < k ==> !#[trigger] is_sps(data, j)
}

/// What the first SPS in a payload says, if there is one and the data holds that much of it.
pub open spec fn profile_of(data: Seq<u8>) -> Option<StreamProfile> {
    if exists|k: int| is_first_sps(data, k) {
        sps_profile(data, choose|k: int| is_first_sps(data, k))
    } else {
        None
    }
}

/// Reads the profile, constraint flags and level out of the first SPS in an Annex-B payload.
///
/// The three fields sit at fixed offsets right after the SPS's NAL header, before any
/// exponential-Golomb coding starts, so this needs no bitstream reader. Emulation-prevention
/// bytes cannot appear among them either: that would require two consecutive zero bytes, and a
/// `profile_idc` of zero is not a thing.
pub fn stream_profile(data: &[u8]) -> (r: Option<StreamProfile>)
    ensures
        forall|k: int| #[trigger] is_first_sps(data@, k) ==> r == sps_profile(data@, k),
        (forall|k: int| 0 <= k < headers(data@, 0).len() ==> !#[trigger] is_sps(data@, k))
            ==> r is None,
        r == profile_of(data@),
{
    let starts = header_offsets(data);
    let ghost all = headers(data@, 0);
    proof {
        lemma_headers(data@, 0);
        assert(all.len() == starts@.len());
        assert forall|k: int| 0 <= k < starts@.len() implies #[trigger] all[k] == starts@[k] by {
            assert(starts@.map_values(|i: usize| i as int)[k] == starts@[k]);
        }
    }
    let mut k: usize = 0;
    while k < starts.len()
        invariant
            k <= starts.len(),
            all == headers(data@, 0),
            all.len() == starts@.len(),
            forall|j: int| 0 <= j < starts@.len() ==> #[trigger] all[j] == starts@[j],
            forall|j: int| 0 <= j < all.len() ==> 3 <= #[trigger] all[j] < data@.len(),
            forall|j: int| 0 <= j < k ==> !#[trigger] is_sps(data@, j),
        decreases starts.len() - k,
    {
        let header: usize = starts[k];
        assert(all[k as int] == header);
        if data[header] & 0x80 == 0 && data[header] & 0x1f == NAL_SPS {
            assert(is_sps(data@, k as int));
            assert(is_first_sps(data@, k as int));
            assert forall|j: int| #[trigger] is_first_sps(data@, j) implies j == k by {
                if j < k {
                    assert(!is_sps(data@, j));
                } else if j > k {
                    assert(is_sps(data@, k as int));
                }
            }
            if data.len() - header < 4 {
                return None;
            }
            return Some(
                StreamProfile {
                    profile_idc: data[header + 1],
                    constraints: data[header + 2],
                    level_idc: data[header + 3],
                },
            );
        }
        k = k + 1;
    }
    None
}

/// Whether a start code stands at `i` with a byte behind it: two zeros and a one.
pub open spec fn is_code(data: Seq<u8>, i: int) -> bool {
    0 <= i && i + 3 < data.len() && data.subrange(i, i + 3) == seq![0u8, 0u8, 1u8]
}

/// A start code is what a reader stops at.
proof fn lemma_code(data: Seq<u8>, i: int)
    requires
        0 <= i,
    ensures
        is_code(data, i) <==> starts_at(data, i),
{
    if i + 3 < data.len() {
        let three = data.subrange(i, i + 3);
        assert(three[0] == data[i] && three[1] == data[i + 1] && three[2] == data[i + 2]);
        if starts_at(data, i) {
            assert(three =~= seq![0u8, 0u8, 1u8]);
        }
    }
}

/// A start code is found unless its first zero is the header behind another one.
proof fn lemma_code_is_found(data: Seq<u8>, from: int, i: int) -> (k: int)
    requires
        0 <= from <= i,
        is_code(data, i),
        !is_code(data, i - 3),
    ensures
        0 <= k < headers(data, from).len(),
        headers(data, from)[k] == i + 3,
    decreases i - from,
{
    lemma_code(data, i);
    lemma_code(data, from);
    let all = headers(data, from);
    if from == i {
        assert(all == seq![from + 3] + headers(data, from + 4));
        0
    } else if starts_at(data, from) {
        assert(from + 4 <= i) by {
            if from == i - 3 {
                assert(is_code(data, i - 3));
            }
        }
        let k = lemma_code_is_found(data, from + 4, i);
        assert(all == seq![from + 3] + headers(data, from + 4));
        assert(all[k + 1] == headers(data, from + 4)[k]);
        k + 1
    } else {
        lemma_code_is_found(data, from + 1, i)
    }
}

/// What is found stands behind a start code.
proof fn lemma_found_is_code(data: Seq<u8>, from: int, k: int)
    requires
        0 <= from,
        0 <= k < headers(data, from).len(),
    ensures
        is_code(data, headers(data, from)[k] - 3),
        headers(data, from)[k] - 3 >= from,
    decreases data.len() - from,
{
    lemma_code(data, from);
    let all = headers(data, from);
    if starts_at(data, from) {
        assert(all == seq![from + 3] + headers(data, from + 4));
        if k > 0 {
            assert(all[k] == headers(data, from + 4)[k - 1]);
            lemma_found_is_code(data, from + 4, k - 1);
        }
    } else {
        lemma_found_is_code(data, from + 1, k);
    }
}

/// The fields of a header byte.
proof fn lemma_header_fields(header: u8)
    ensures
        is_header(header) <==> header < 128,
        type_of(header) == header % 32,
        (header >> 5) & 0x03 == header / 32 % 4,
{
    assert((header & 0x80 == 0 <==> header < 128) && header & 0x1f == header % 32 && (header >> 5)
        & 0x03 == header / 32 % 4) by (bit_vector);
}

/// An IDR slice is found behind any start code, short or long, and nothing else is taken for one.
pub proof fn law_idr_slices_are_found(data: &[u8], r: bool, i: int)
    requires
        call_ensures(contains_idr, (data,), r),
    ensures
        is_code(data@, i) && !is_code(data@, i - 3) && data@[i + 3] < 128 && data@[i + 3] % 32 == 5
            ==> r,
        r ==> exists|j: int| #[trigger]
            is_code(data@, j) && data@[j + 3] < 128 && data@[j + 3] % 32 == 5,
{
    if is_code(data@, i) && !is_code(data@, i - 3) && data@[i + 3] < 128 && data@[i + 3] % 32
        == 5 {
        let k = lemma_code_is_found(data@, 0, i);
        lemma_header_fields(data@[i + 3]);
        assert(headers(data@, 0)[k] == i + 3);
    }
    if r {
        let k = choose|k: int|
            0 <= k < headers(data@, 0).len() && is_header(data@[#[trigger] headers(data@, 0)[k]])
                && type_of(data@[headers(data@, 0)[k]]) == NAL_IDR;
        lemma_found_is_code(data@, 0, k);
        lemma_header_fields(data@[headers(data@, 0)[k]]);
        assert(is_code(data@, headers(data@, 0)[k] - 3));
    }
}

/// The first sequence parameter set gives the profile, the constraints and the level in its first
/// three bytes, if they are there.
pub proof fn law_profiles_are_read(data: &[u8], r: Option<StreamProfile>, i: int)
    requires
        call_ensures(stream_profile, (data,), r),
    ensures
        is_code(data@, i) && !is_code(data@, i - 3) && data@[i + 3] < 128 && data@[i + 3] % 32 == 7
            && (forall|j: int| #[trigger]
            is_code(data@, j) && j < i ==> data@[j + 3] >= 128 || data@[j + 3] % 32 != 7) ==> r
            == (if i + 6 < data@.len() {
            Some(
                StreamProfile {
                    profile_idc: data@[i + 4],
                    constraints: data@[i + 5],
                    level_idc: data@[i + 6],
                },
            )
        } else {
            None
        }),
        r is Some ==> exists|j: int| #[trigger]
            is_code(data@, j) && data@[j + 3] < 128 && data@[j + 3] % 32 == 7 && r->0.profile_idc
                == data@[j + 4] && r->0.constraints == data@[j + 5] && r->0.level_idc
                == data@[j + 6],
{
    let all = headers(data@, 0);
    lemma_headers(data@, 0);
    if is_code(data@, i) && !is_code(data@, i - 3) && data@[i + 3] < 128 && data@[i + 3] % 32 == 7
        && (forall|j: int| #[trigger]
        is_code(data@, j) && j < i ==> data@[j + 3] >= 128 || data@[j + 3] % 32 != 7) {
        let k = lemma_code_is_found(data@, 0, i);
        lemma_header_fields(data@[i + 3]);
        assert forall|j: int| 0 <= j < k implies !#[trigger] is_sps(data@, j) by {
            lemma_found_is_code(data@, 0, j);
            lemma_header_fields(data@[all[j]]);
            assert(is_code(data@, all[j] - 3));
            assert(all[j] < all[k]);
        }
        assert(is_first_sps(data@, k));
    }
    if r is Some {
        assert(exists|k: int| is_first_sps(data@, k));
        let k = choose|k: int| is_first_sps(data@, k);
        lemma_found_is_code(data@, 0, k);
        lemma_header_fields(data@[all[k]]);
        assert(is_code(data@, all[k] - 3));
    }
}

/// Data without a start code holds no header.
proof fn lemma_no_code(data: Seq<u8>, from: int)
    requires
        0 <= from,
        forall|i: int| from <= i ==> !#[trigger] is_code(data, i),
    ensures
        headers(data, from).len() == 0,
    decreases data.len() - from,
{
    if from + 3 < data.len() {
        assert(!is_code(data, from));
        lemma_code(data, from);
        lemma_no_code(data, from + 1);
    }
}

/// A start code and a unit behind some data add one header.
proof fn lemma_unit_behind(data: Seq<u8>, code: Seq<u8>, unit: Seq<u8>, from: int)
    requires
        0 <= from <= data.len(),
        code == seq![0u8, 0u8, 1u8] || code == seq![0u8, 0u8, 0u8, 1u8],
        unit.len() > 0,
        forall|i: int| 1 <= i ==> !#[trigger] is_code(unit, i),
        !(data.len() >= 3 && data.skip(data.len() - 3) == seq![0u8, 0u8, 1u8]),
    ensures
        headers(data + code + unit, from) == headers(data, from).push(
            (data.len() + code.len()) as int,
        ),
    decreases data.len() - from,
{
    let all = data + code + unit;
    let n = data.len() as int;
    let h = (data.len() + code.len()) as int;
    if from + 3 < n {
        lemma_code(all, from);
        if starts_at(data, from) {
            lemma_unit_behind(data, code, unit, from + 4);
            assert(headers(all, from) == seq![from + 3] + headers(all, from + 4));
            assert(headers(data, from) == seq![from + 3] + headers(data, from + 4));
            assert(headers(all, from) =~= headers(data, from).push(h));
        } else {
            assert(!starts_at(all, from));
            lemma_unit_behind(data, code, unit, from + 1);
        }
    } else if from < n {
        assert(headers(data, from).len() == 0);
        assert(!starts_at(all, from)) by {
            if from == n - 3 {
                assert(data.skip(n - 3)[0] == data[n - 3]);
                if starts_at(all, from) {
                    assert(data.skip(n - 3) =~= seq![0u8, 0u8, 1u8]);
                }
            } else if from == n - 2 {
                assert(all[from + 2] == code[0]);
            } else {
                assert(all[from + 2] == code[1]);
            }
        }
        assert(from + 3 < all.len());
        assert(headers(all, from) == headers(all, from + 1));
        lemma_unit_behind(data, code, unit, from + 1);
        assert(headers(data, from + 1).len() == 0);
        assert(headers(all, from) =~= headers(data, from).push(h));
    } else {
        let c = (h - 3) as int;
        assert(all[c] == 0 && all[c + 1] == 0 && all[c + 2] == 1);
        if code.len() == 4 {
            assert(all[n + 2] == 0);
            assert(!starts_at(all, n));
            assert(headers(all, n) == headers(all, n + 1));
        }
        assert(starts_at(all, c));
        assert(headers(all, c) == seq![h] + headers(all, c + 4));
        assert forall|i: int| h + 1 <= i implies !#[trigger] is_code(all, i) by {
            assert(!is_code(unit, i - h));
            if is_code(all, i) {
                assert(all.subrange(i, i + 3) =~= unit.subrange(i - h, i - h + 3));
            }
        }
        lemma_no_code(all, h + 1);
        assert(headers(data, from).len() == 0);
        assert(headers(all, from) =~= headers(data, from).push(h));
    }
}

/// A unit behind a start code is found behind those in front of it, with the type, the reference
/// weight and the length that it has. Where it is set off by the short start code, the data in front
/// must not end in a zero, which would make the code a long one.
pub proof fn law_units_are_found_in_order(
    data: &[u8],
    code: Seq<u8>,
    unit: Seq<u8>,
    whole: &[u8],
    before: Vec<NalUnit>,
    after: Vec<NalUnit>,
)
    requires
        code == seq![0u8, 0u8, 0u8, 1u8] || (code == seq![0u8, 0u8, 1u8] && (data@.len() > 0
            ==> data@.last() != 0)),
        !(data@.len() >= 3 && data@.skip(data@.len() - 3) == seq![0u8, 0u8, 1u8]),
        unit.len() > 0,
        forall|i: int| 1 <= i ==> !#[trigger] is_code(unit, i),
        whole@ == data@ + code + unit,
        call_ensures(units, (data,), before),
        call_ensures(units, (whole,), after),
    ensures
        after@ == before@.push(
            NalUnit {
                nal_type: unit[0] % 32,
                ref_idc: unit[0] / 32 % 4,
                len: unit.len() as usize,
            },
        ),
{
    let all = whole@;
    let n = data@.len() as int;
    let h = n + code.len();
    let size = whole.len();
    lemma_unit_behind(data@, code, unit, 0);
    lemma_headers(data@, 0);
    lemma_headers(all, 0);
    lemma_header_fields(unit[0]);
    let (old, new) = (headers(data@, 0), headers(all, 0));
    assert(all[h] == unit[0]);
    let last = old.len() as int;
    assert(new[last] == h);
    assert(units_of(all)[last] == unit_at(all, last));
    assert(unit_end(all, last) == all.len());
    assert forall|k: int| 0 <= k < last implies units_of(all)[k] == #[trigger] units_of(data@)[k] by {
        assert(new[k] == old[k]);
        assert(3 <= old[k] < n);
        assert(all[old[k]] == data@[old[k]]);
        if k + 1 < last {
            assert(new[k + 1] == old[k + 1]);
            assert(3 <= old[k + 1] < n);
            assert(old[k] + 4 <= old[k + 1]);
            assert(all[old[k + 1] - 4] == data@[old[k + 1] - 4]);
        } else {
            assert(new[k + 1] == h);
            assert(h - 4 >= 0);
            if code.len() == 4 {
                assert(all[h - 4] == code[0]);
            } else {
                assert(all[h - 4] == data@.last());
            }
            assert(unit_end(all, k) == n);
        }
    }
    assert(after@ =~= before@.push(
        NalUnit { nal_type: unit[0] % 32, ref_idc: unit[0] / 32 % 4, len: unit.len() as usize },
    ));
}

/// Data without a start code holds no unit.
pub proof fn law_no_start_code_no_unit(data: &[u8], r: Vec<NalUnit>)
    requires
        call_ensures(units, (data,), r),
        forall|i: int| 0 <= i ==> !#[trigger] is_code(data@, i),
    ensures
        r@.len() == 0,
{
    lemma_no_code(data@, 0);
}

/// Parameter sets are units of type 7 or 8. Slices are units of type 1 or 5, and nothing refers to
/// those whose reference weight is zero.
pub proof fn law_units_tell_what_a_payload_holds(
    data: &[u8],
    held: Vec<NalUnit>,
    sets: bool,
    disposable: Option<bool>,
)
    requires
        call_ensures(units, (data,), held),
        call_ensures(has_parameter_sets, (data,), sets),
        call_ensures(slices_are_non_reference, (data,), disposable),
    ensures
        sets <==> exists|k: int|
            0 <= k < held@.len() && ((#[trigger] held@[k]).nal_type == 7 || held@[k].nal_type == 8),
        disposable is Some <==> exists|k: int|
            0 <= k < held@.len() && ((#[trigger] held@[k]).nal_type == 1 || held@[k].nal_type == 5),
        disposable == Some(true) ==> forall|k: int|
            0 <= k < held@.len() && ((#[trigger] held@[k]).nal_type == 1 || held@[k].nal_type == 5)
                ==> held@[k].ref_idc == 0,
        disposable == Some(false) ==> exists|k: int|
            0 <= k < held@.len() && ((#[trigger] held@[k]).nal_type == 1 || held@[k].nal_type == 5)
                && held@[k].ref_idc != 0,
{
    let all = units_of(data@);
    assert(held@ == all);
    if sets {
        let k = choose|k: int|
            0 <= k < all.len() && {
                let t = (#[trigger] all[k]).nal_type;
                t == NAL_SPS || t == NAL_PPS
            };
        assert(held@[k] == all[k]);
    }
    if has_slices(data@) {
        let k = choose|k: int| 0 <= k < all.len() && is_slice(#[trigger] all[k]);
        assert(held@[k] == all[k]);
    }
    if exists|k: int|
        0 <= k < held@.len() && ((#[trigger] held@[k]).nal_type == 1 || held@[k].nal_type == 5) {
        let k = choose|k: int|
            0 <= k < held@.len() && ((#[trigger] held@[k]).nal_type == 1 || held@[k].nal_type == 5);
        assert(is_slice(all[k]));
    }
    if disposable == Some(true) {
        assert forall|k: int|
            0 <= k < held@.len() && ((#[trigger] held@[k]).nal_type == 1 || held@[k].nal_type
                == 5) implies held@[k].ref_idc == 0 by {
            assert(is_slice(all[k]));
        }
    }
    if disposable == Some(false) {
        let k = choose|k: int|
            0 <= k < all.len() && is_slice(#[trigger] all[k]) && all[k].ref_idc != 0;
        assert(held@[k] == all[k]);
    }
}

/// A profile has the name it is usually written with. Constrained Baseline is profile 66 with the
/// second constraint flag set.
pub proof fn law_profiles_have_their_names(p: &StreamProfile, r: &'static str, constrained: bool)
    requires
        call_ensures(StreamProfile::name, (p,), r),
        call_ensures(StreamProfile::is_constrained_baseline, (p,), constrained),
    ensures
        constrained <==> p.profile_idc == 66 && p.constraints / 64 % 2 == 1,
        r@ == (if constrained {
            "Constrained Baseline"@
        } else {
            match p.profile_idc {
                66 => "Baseline"@,
                77 => "Main"@,
                88 => "Extended"@,
                100 => "High"@,
                110 => "High 10"@,
                122 => "High 4:2:2"@,
                244 => "High 4:4:4 Predictive"@,
                _ => "unrecognised profile"@,
            }
        }),
{
    let flags = p.constraints;
    assert(flags & 0x40 != 0 <==> flags / 64 % 2 == 1) by (bit_vector);
}

/// The name that a unit type goes by.
pub open spec fn name_of(nal_type: u8) -> Seq<char> {
    match nal_type {
        1 => "slice"@,
        5 => "IDR"@,
        6 => "SEI"@,
        7 => "SPS"@,
        8 => "PPS"@,
        9 => "AUD"@,
        10 => "end-of-sequence"@,
        11 => "end-of-stream"@,
        12 => "filler"@,
        13 => "SPS-extension"@,
        14 => "prefix"@,
        15 => "subset-SPS"@,
        19 => "auxiliary-slice"@,
        20 => "slice-extension"@,
        n => (if 2 <= n <= 4 {
            "partition-"@
        } else {
            "type-"@
        }) + text::decimal(n as nat),
    }
}

/// A payload is described unit by unit, each as its name, its reference weight and its length; one
/// without units by how long it is.
pub proof fn law_payloads_are_described(
    data: &[u8],
    held: Vec<NalUnit>,
    parts: Vec<String>,
    joined: String,
    r: String,
)
    requires
        call_ensures(units, (data,), held),
        call_ensures(describe, (data,), r),
        call_ensures(text::join, (&parts, " "), joined),
        parts@.len() == held@.len(),
        forall|k: int|
            0 <= k < held@.len() ==> (#[trigger] parts@[k])@ == name_of(held@[k].nal_type) + "/"@
                + text::decimal(held@[k].ref_idc as nat) + "("@ + text::decimal(
                held@[k].len as nat,
            ) + ")"@,
    ensures
        held@.len() > 0 ==> r@ == joined@,
        held@.len() == 0 ==> r@ == "no NAL units in "@ + text::decimal(data@.len()) + " bytes"@,
{
    let all = units_of(data@);
    let given = parts@.map_values(|s: String| s@);
    let owed = all.map_values(|u: NalUnit| unit_text(u));
    assert forall|k: int| 0 <= k < all.len() implies given[k] == #[trigger] owed[k] by {
        assert(parts@[k]@ == name_of(held@[k].nal_type) + "/"@ + text::decimal(
            held@[k].ref_idc as nat,
        ) + "("@ + text::decimal(held@[k].len as nat) + ")"@);
        assert(nal_name(all[k].nal_type) == name_of(held@[k].nal_type));
    }
    assert(given =~= owed);
}

/// A level is written with its tenth behind a point.
pub proof fn law_levels_have_a_tenth(p: &StreamProfile, r: String)
    requires
        call_ensures(StreamProfile::level, (p,), r),
    ensures
        r@ == text::decimal((p.level_idc / 10) as nat) + "."@ + text::decimal(
            (p.level_idc % 10) as nat,
        ),
{
}

} // verus!
