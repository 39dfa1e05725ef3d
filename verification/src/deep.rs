//! The deep extractor: attempts a bounded structured decode of every archive
//! entry and, on success, pulls a fixed core field set plus class- and
//! vendor-conditional extra field sets. A missing or uncoercible field yields
//! the "absent" sentinel, never a failure; an entry that does not decode is
//! skipped, never an error.
use crate::archive::{
    archive_len, archive_open, entry_meta, entry_read_all, zip_entries, zip_entries_of, EntryModel,
};
use crate::dicom_io::{dicom_parse, extract_field, field_str, object_fields, DicomObj};
use crate::prefilter::ScanError;
use crate::resolution::{calculate_acq_resolution, spec_acq_resolution};
use crate::text::str_eq;
use vstd::prelude::*;

verus! {

/// One extracted field: the tag it came from and its text (or the sentinel).
#[derive(Debug, Clone, PartialEq)]
pub struct TagValue {
    pub group: u16,
    pub element: u16,
    pub value: String,
}

/// The mathematical image of an extracted field.
pub struct TagValueModel {
    pub group: u16,
    pub element: u16,
    pub value: Seq<char>,
}

impl View for TagValue {
    type V = TagValueModel;

    open spec fn view(&self) -> TagValueModel {
        TagValueModel { group: self.group, element: self.element, value: self.value@ }
    }
}

impl DeepView for TagValue {
    type V = TagValueModel;

    open spec fn deep_view(&self) -> TagValueModel {
        self.view()
    }
}

/// The fields that extracting a tag schema from field map `m` yields.
pub open spec fn fields_model(m: Map<(u16, u16), Seq<char>>, tags: Seq<(u16, u16)>) -> Seq<
    TagValueModel,
> {
    Seq::new(
        tags.len(),
        |k: int|
            TagValueModel {
                group: tags[k].0,
                element: tags[k].1,
                value: field_str(m, tags[k].0, tags[k].1),
            },
    )
}

/// Extract every tag of a schema from a decoded object, substituting the
/// "absent" sentinel for a tag that is missing or uncoercible. One generic
/// routine drives all the per-tag accessor work.
pub fn extract_fields(obj: &DicomObj, schema: &Vec<(u16, u16)>) -> (r: Vec<TagValue>)
    ensures
        r.deep_view() == fields_model(object_fields(*obj), schema@),
{
    let mut out: Vec<TagValue> = Vec::new();
    let n = schema.len();
    let mut i: usize = 0;
    while i < n
        invariant
            i <= n == schema@.len(),
            out.deep_view() == fields_model(object_fields(*obj), schema@).take(i as int),
        decreases n - i,
    {
        let (group, element) = schema[i];
        let value = extract_field(obj, group, element);
        let tv = TagValue { group, element, value };
        let ghost old_dv = out.deep_view();
        proof {
            assert(tv.deep_view() == fields_model(object_fields(*obj), schema@)[i as int]);
        }
        out.push(tv);
        proof {
            assert(out.deep_view() =~= old_dv.push(
                fields_model(object_fields(*obj), schema@)[i as int],
            ));
            assert(out.deep_view() =~= fields_model(object_fields(*obj), schema@).take(
                i as int + 1,
            ));
        }
        i = i + 1;
    }
    proof {
        assert(fields_model(object_fields(*obj), schema@).take(n as int) =~= fields_model(
            object_fields(*obj),
            schema@,
        ));
    }
    out
}

/// The tag schema of the enhanced multi-frame object branch: geometry and
/// acquisition descriptors.
pub open spec fn enhanced_mr_tags() -> Seq<(u16, u16)> {
    seq![
        (0x0020u16, 0x0012u16),
        (0x0008u16, 0x002Au16),
        (0x0018u16, 0x9004u16),
        (0x0018u16, 0x9100u16),
        (0x0018u16, 0x9064u16),
        (0x0018u16, 0x0087u16),
        (0x0018u16, 0x9174u16),
        (0x0018u16, 0x9175u16),
        (0x0020u16, 0x4000u16),
        (0x300Au16, 0x012Cu16),
        (0x0018u16, 0x1320u16),
        (0x0008u16, 0x9209u16),
        (0x0018u16, 0x9125u16),
        (0x0018u16, 0x1312u16),
        (0x0018u16, 0x9058u16),
        (0x0018u16, 0x9231u16),
        (0x0018u16, 0x9232u16),
        (0x0018u16, 0x0093u16),
        (0x0018u16, 0x0094u16),
    ]
}

/// The enhanced-branch schema as runtime data.
pub fn enhanced_mr_schema() -> (r: Vec<(u16, u16)>)
    ensures
        r@ == enhanced_mr_tags(),
{
    let v: Vec<(u16, u16)> = vec![
        (0x0020u16, 0x0012u16),
        (0x0008u16, 0x002Au16),
        (0x0018u16, 0x9004u16),
        (0x0018u16, 0x9100u16),
        (0x0018u16, 0x9064u16),
        (0x0018u16, 0x0087u16),
        (0x0018u16, 0x9174u16),
        (0x0018u16, 0x9175u16),
        (0x0020u16, 0x4000u16),
        (0x300Au16, 0x012Cu16),
        (0x0018u16, 0x1320u16),
        (0x0008u16, 0x9209u16),
        (0x0018u16, 0x9125u16),
        (0x0018u16, 0x1312u16),
        (0x0018u16, 0x9058u16),
        (0x0018u16, 0x9231u16),
        (0x0018u16, 0x9232u16),
        (0x0018u16, 0x0093u16),
        (0x0018u16, 0x0094u16),
    ];
    proof {
        assert(v@ =~= enhanced_mr_tags());
    }
    v
}

/// The tag schema of the classic magnetic-resonance image branch: timing,
/// matrix, coil, bandwidth and slice geometry.
pub open spec fn mr_image_tags() -> Seq<(u16, u16)> {
    seq![
        (0x0018u16, 0x0081u16),
        (0x0018u16, 0x0080u16),
        (0x0018u16, 0x1316u16),
        (0x0018u16, 0x1318u16),
        (0x300Au16, 0x012Cu16),
        (0x0018u16, 0x1250u16),
        (0x0018u16, 0x0095u16),
        (0x0018u16, 0x0089u16),
        (0x0018u16, 0x1310u16),
        (0x0018u16, 0x1312u16),
        (0x0018u16, 0x1100u16),
        (0x0028u16, 0x0030u16),
        (0x0028u16, 0x0010u16),
        (0x0028u16, 0x0011u16),
        (0x0018u16, 0x1320u16),
        (0x0028u16, 0x0100u16),
        (0x0028u16, 0x0101u16),
        (0x0028u16, 0x0102u16),
        (0x0018u16, 0x0020u16),
        (0x0018u16, 0x0021u16),
        (0x0018u16, 0x0022u16),
        (0x0018u16, 0x0023u16),
        (0x0018u16, 0x0082u16),
        (0x0018u16, 0x0024u16),
        (0x0018u16, 0x0088u16),
        (0x0018u16, 0x0093u16),
        (0x0018u16, 0x0094u16),
        (0x0018u16, 0x1314u16),
        (0x0018u16, 0x1315u16),
        (0x0018u16, 0x0050u16),
    ]
}

/// The classic-branch schema as runtime data.
pub fn mr_image_schema() -> (r: Vec<(u16, u16)>)
    ensures
        r@ == mr_image_tags(),
{
    let v: Vec<(u16, u16)> = vec![
        (0x0018u16, 0x0081u16),
        (0x0018u16, 0x0080u16),
        (0x0018u16, 0x1316u16),
        (0x0018u16, 0x1318u16),
        (0x300Au16, 0x012Cu16),
        (0x0018u16, 0x1250u16),
        (0x0018u16, 0x0095u16),
        (0x0018u16, 0x0089u16),
        (0x0018u16, 0x1310u16),
        (0x0018u16, 0x1312u16),
        (0x0018u16, 0x1100u16),
        (0x0028u16, 0x0030u16),
        (0x0028u16, 0x0010u16),
        (0x0028u16, 0x0011u16),
        (0x0018u16, 0x1320u16),
        (0x0028u16, 0x0100u16),
        (0x0028u16, 0x0101u16),
        (0x0028u16, 0x0102u16),
        (0x0018u16, 0x0020u16),
        (0x0018u16, 0x0021u16),
        (0x0018u16, 0x0022u16),
        (0x0018u16, 0x0023u16),
        (0x0018u16, 0x0082u16),
        (0x0018u16, 0x0024u16),
        (0x0018u16, 0x0088u16),
        (0x0018u16, 0x0093u16),
        (0x0018u16, 0x0094u16),
        (0x0018u16, 0x1314u16),
        (0x0018u16, 0x1315u16),
        (0x0018u16, 0x0050u16),
    ];
    proof {
        assert(v@ =~= mr_image_tags());
    }
    v
}

/// The tag schema of the vendor-private extension block read for the reserved
/// manufacturer: private creator, acquisition duration, echo counts, gradient
/// offsets and related private fields.
pub open spec fn ge_mr_tags() -> Seq<(u16, u16)> {
    seq![
        (0x0019u16, 0x109Eu16),
        (0x0019u16, 0x105Au16),
        (0x0019u16, 0x107Eu16),
        (0x0019u16, 0x107Fu16),
        (0x0043u16, 0x0010u16),
        (0x0043u16, 0x1001u16),
        (0x0043u16, 0x1002u16),
        (0x0043u16, 0x1003u16),
        (0x0043u16, 0x1004u16),
        (0x0043u16, 0x1005u16),
        (0x0043u16, 0x1006u16),
        (0x0043u16, 0x1007u16),
        (0x0043u16, 0x1008u16),
        (0x0043u16, 0x1009u16),
        (0x0043u16, 0x100Au16),
        (0x0043u16, 0x100Bu16),
        (0x0043u16, 0x100Cu16),
        (0x0043u16, 0x100Du16),
        (0x0043u16, 0x100Eu16),
        (0x0043u16, 0x100Fu16),
        (0x0043u16, 0x1077u16),
        (0x0043u16, 0x1078u16),
        (0x0043u16, 0x1079u16),
        (0x0043u16, 0x1083u16),
    ]
}

/// The vendor-branch schema as runtime data.
pub fn ge_mr_schema() -> (r: Vec<(u16, u16)>)
    ensures
        r@ == ge_mr_tags(),
{
    let v: Vec<(u16, u16)> = vec![
        (0x0019u16, 0x109Eu16),
        (0x0019u16, 0x105Au16),
        (0x0019u16, 0x107Eu16),
        (0x0019u16, 0x107Fu16),
        (0x0043u16, 0x0010u16),
        (0x0043u16, 0x1001u16),
        (0x0043u16, 0x1002u16),
        (0x0043u16, 0x1003u16),
        (0x0043u16, 0x1004u16),
        (0x0043u16, 0x1005u16),
        (0x0043u16, 0x1006u16),
        (0x0043u16, 0x1007u16),
        (0x0043u16, 0x1008u16),
        (0x0043u16, 0x1009u16),
        (0x0043u16, 0x100Au16),
        (0x0043u16, 0x100Bu16),
        (0x0043u16, 0x100Cu16),
        (0x0043u16, 0x100Du16),
        (0x0043u16, 0x100Eu16),
        (0x0043u16, 0x100Fu16),
        (0x0043u16, 0x1077u16),
        (0x0043u16, 0x1078u16),
        (0x0043u16, 0x1079u16),
        (0x0043u16, 0x1083u16),
    ];
    proof {
        assert(v@ =~= ge_mr_tags());
    }
    v
}

/// The full vendor-private parameter block of the reserved manufacturer (the
/// private group 0x0043 and its creator tag), one entry per known element.
pub open spec fn gems_parm_01_tags() -> Seq<(u16, u16)> {
    seq![
        (0x0043u16, 0x0010u16),
        (0x0043u16, 0x1001u16),
        (0x0043u16, 0x1002u16),
        (0x0043u16, 0x1003u16),
        (0x0043u16, 0x1004u16),
        (0x0043u16, 0x1005u16),
        (0x0043u16, 0x1006u16),
        (0x0043u16, 0x1007u16),
        (0x0043u16, 0x1008u16),
        (0x0043u16, 0x1009u16),
        (0x0043u16, 0x100Au16),
        (0x0043u16, 0x100Bu16),
        (0x0043u16, 0x100Cu16),
        (0x0043u16, 0x100Du16),
        (0x0043u16, 0x100Eu16),
        (0x0043u16, 0x100Fu16),
        (0x0043u16, 0x1010u16),
        (0x0043u16, 0x101Cu16),
        (0x0043u16, 0x101Du16),
        (0x0043u16, 0x1028u16),
        (0x0043u16, 0x1029u16),
        (0x0043u16, 0x102Au16),
        (0x0043u16, 0x102Bu16),
        (0x0043u16, 0x102Cu16),
        (0x0043u16, 0x102Du16),
        (0x0043u16, 0x102Eu16),
        (0x0043u16, 0x102Fu16),
        (0x0043u16, 0x1030u16),
        (0x0043u16, 0x1031u16),
        (0x0043u16, 0x1032u16),
        (0x0043u16, 0x1033u16),
        (0x0043u16, 0x1034u16),
        (0x0043u16, 0x1035u16),
        (0x0043u16, 0x1036u16),
        (0x0043u16, 0x1037u16),
        (0x0043u16, 0x1038u16),
        (0x0043u16, 0x1039u16),
        (0x0043u16, 0x1060u16),
        (0x0043u16, 0x1062u16),
        (0x0043u16, 0x106Fu16),
        (0x0043u16, 0x1071u16),
        (0x0043u16, 0x1072u16),
        (0x0043u16, 0x1073u16),
        (0x0043u16, 0x1074u16),
        (0x0043u16, 0x1075u16),
        (0x0043u16, 0x1076u16),
        (0x0043u16, 0x1077u16),
        (0x0043u16, 0x1078u16),
        (0x0043u16, 0x1079u16),
        (0x0043u16, 0x107Au16),
        (0x0043u16, 0x107Bu16),
        (0x0043u16, 0x107Cu16),
        (0x0043u16, 0x107Du16),
        (0x0043u16, 0x107Eu16),
        (0x0043u16, 0x107Fu16),
        (0x0043u16, 0x1080u16),
        (0x0043u16, 0x1081u16),
        (0x0043u16, 0x1082u16),
        (0x0043u16, 0x1083u16),
        (0x0043u16, 0x1084u16),
        (0x0043u16, 0x1085u16),
        (0x0043u16, 0x1086u16),
        (0x0043u16, 0x1087u16),
        (0x0043u16, 0x1088u16),
        (0x0043u16, 0x1089u16),
        (0x0043u16, 0x108Au16),
        (0x0043u16, 0x108Bu16),
        (0x0043u16, 0x108Cu16),
        (0x0043u16, 0x108Du16),
        (0x0043u16, 0x108Eu16),
        (0x0043u16, 0x108Fu16),
        (0x0043u16, 0x1090u16),
        (0x0043u16, 0x1091u16),
        (0x0043u16, 0x1092u16),
        (0x0043u16, 0x1093u16),
        (0x0043u16, 0x1094u16),
        (0x0043u16, 0x1095u16),
        (0x0043u16, 0x1096u16),
        (0x0043u16, 0x1097u16),
        (0x0043u16, 0x1098u16),
        (0x0043u16, 0x1099u16),
        (0x0043u16, 0x109Au16),
        (0x0043u16, 0x109Bu16),
        (0x0043u16, 0x109Cu16),
        (0x0043u16, 0x109Du16),
        (0x0043u16, 0x109Eu16),
        (0x0043u16, 0x109Fu16),
        (0x0043u16, 0x10A0u16),
        (0x0043u16, 0x10A1u16),
        (0x0043u16, 0x10A2u16),
        (0x0043u16, 0x10A3u16),
        (0x0043u16, 0x10A4u16),
        (0x0043u16, 0x10A5u16),
        (0x0043u16, 0x10A6u16),
        (0x0043u16, 0x10A7u16),
        (0x0043u16, 0x10A8u16),
        (0x0043u16, 0x10A9u16),
        (0x0043u16, 0x10AAu16),
        (0x0043u16, 0x10ABu16),
        (0x0043u16, 0x10ACu16),
        (0x0043u16, 0x10ADu16),
        (0x0043u16, 0x10AEu16),
        (0x0043u16, 0x10AFu16),
        (0x0043u16, 0x10B0u16),
        (0x0043u16, 0x10B1u16),
        (0x0043u16, 0x10B3u16),
        (0x0043u16, 0x10B4u16),
        (0x0043u16, 0x10B2u16),
        (0x0043u16, 0x10B6u16),
        (0x0043u16, 0x10B7u16),
        (0x0043u16, 0x10B8u16),
        (0x0043u16, 0x10B9u16),
        (0x0043u16, 0x10BAu16),
        (0x0043u16, 0x10BBu16),
        (0x0043u16, 0x10BCu16),
        (0x0043u16, 0x10BDu16),
        (0x0043u16, 0x10BFu16),
    ]
}

/// The vendor parameter-block schema as runtime data.
pub fn gems_parm_01_schema() -> (r: Vec<(u16, u16)>)
    ensures
        r@ == gems_parm_01_tags(),
{
    let v: Vec<(u16, u16)> = vec![
        (0x0043u16, 0x0010u16),
        (0x0043u16, 0x1001u16),
        (0x0043u16, 0x1002u16),
        (0x0043u16, 0x1003u16),
        (0x0043u16, 0x1004u16),
        (0x0043u16, 0x1005u16),
        (0x0043u16, 0x1006u16),
        (0x0043u16, 0x1007u16),
        (0x0043u16, 0x1008u16),
        (0x0043u16, 0x1009u16),
        (0x0043u16, 0x100Au16),
        (0x0043u16, 0x100Bu16),
        (0x0043u16, 0x100Cu16),
        (0x0043u16, 0x100Du16),
        (0x0043u16, 0x100Eu16),
        (0x0043u16, 0x100Fu16),
        (0x0043u16, 0x1010u16),
        (0x0043u16, 0x101Cu16),
        (0x0043u16, 0x101Du16),
        (0x0043u16, 0x1028u16),
        (0x0043u16, 0x1029u16),
        (0x0043u16, 0x102Au16),
        (0x0043u16, 0x102Bu16),
        (0x0043u16, 0x102Cu16),
        (0x0043u16, 0x102Du16),
        (0x0043u16, 0x102Eu16),
        (0x0043u16, 0x102Fu16),
        (0x0043u16, 0x1030u16),
        (0x0043u16, 0x1031u16),
        (0x0043u16, 0x1032u16),
        (0x0043u16, 0x1033u16),
        (0x0043u16, 0x1034u16),
        (0x0043u16, 0x1035u16),
        (0x0043u16, 0x1036u16),
        (0x0043u16, 0x1037u16),
        (0x0043u16, 0x1038u16),
        (0x0043u16, 0x1039u16),
        (0x0043u16, 0x1060u16),
        (0x0043u16, 0x1062u16),
        (0x0043u16, 0x106Fu16),
        (0x0043u16, 0x1071u16),
        (0x0043u16, 0x1072u16),
        (0x0043u16, 0x1073u16),
        (0x0043u16, 0x1074u16),
        (0x0043u16, 0x1075u16),
        (0x0043u16, 0x1076u16),
        (0x0043u16, 0x1077u16),
        (0x0043u16, 0x1078u16),
        (0x0043u16, 0x1079u16),
        (0x0043u16, 0x107Au16),
        (0x0043u16, 0x107Bu16),
        (0x0043u16, 0x107Cu16),
        (0x0043u16, 0x107Du16),
        (0x0043u16, 0x107Eu16),
        (0x0043u16, 0x107Fu16),
        (0x0043u16, 0x1080u16),
        (0x0043u16, 0x1081u16),
        (0x0043u16, 0x1082u16),
        (0x0043u16, 0x1083u16),
        (0x0043u16, 0x1084u16),
        (0x0043u16, 0x1085u16),
        (0x0043u16, 0x1086u16),
        (0x0043u16, 0x1087u16),
        (0x0043u16, 0x1088u16),
        (0x0043u16, 0x1089u16),
        (0x0043u16, 0x108Au16),
        (0x0043u16, 0x108Bu16),
        (0x0043u16, 0x108Cu16),
        (0x0043u16, 0x108Du16),
        (0x0043u16, 0x108Eu16),
        (0x0043u16, 0x108Fu16),
        (0x0043u16, 0x1090u16),
        (0x0043u16, 0x1091u16),
        (0x0043u16, 0x1092u16),
        (0x0043u16, 0x1093u16),
        (0x0043u16, 0x1094u16),
        (0x0043u16, 0x1095u16),
        (0x0043u16, 0x1096u16),
        (0x0043u16, 0x1097u16),
        (0x0043u16, 0x1098u16),
        (0x0043u16, 0x1099u16),
        (0x0043u16, 0x109Au16),
        (0x0043u16, 0x109Bu16),
        (0x0043u16, 0x109Cu16),
        (0x0043u16, 0x109Du16),
        (0x0043u16, 0x109Eu16),
        (0x0043u16, 0x109Fu16),
        (0x0043u16, 0x10A0u16),
        (0x0043u16, 0x10A1u16),
        (0x0043u16, 0x10A2u16),
        (0x0043u16, 0x10A3u16),
        (0x0043u16, 0x10A4u16),
        (0x0043u16, 0x10A5u16),
        (0x0043u16, 0x10A6u16),
        (0x0043u16, 0x10A7u16),
        (0x0043u16, 0x10A8u16),
        (0x0043u16, 0x10A9u16),
        (0x0043u16, 0x10AAu16),
        (0x0043u16, 0x10ABu16),
        (0x0043u16, 0x10ACu16),
        (0x0043u16, 0x10ADu16),
        (0x0043u16, 0x10AEu16),
        (0x0043u16, 0x10AFu16),
        (0x0043u16, 0x10B0u16),
        (0x0043u16, 0x10B1u16),
        (0x0043u16, 0x10B3u16),
        (0x0043u16, 0x10B4u16),
        (0x0043u16, 0x10B2u16),
        (0x0043u16, 0x10B6u16),
        (0x0043u16, 0x10B7u16),
        (0x0043u16, 0x10B8u16),
        (0x0043u16, 0x10B9u16),
        (0x0043u16, 0x10BAu16),
        (0x0043u16, 0x10BBu16),
        (0x0043u16, 0x10BCu16),
        (0x0043u16, 0x10BDu16),
        (0x0043u16, 0x10BFu16),
    ];
    proof {
        assert(v@ =~= gems_parm_01_tags());
    }
    v
}

/// Extract the whole vendor-private parameter block of the reserved
/// manufacturer from a decoded object, one field per schema tag, with the
/// "absent" sentinel wherever the object does not carry the tag.
pub fn scan_gems_parm_01(obj: &DicomObj) -> (r: Vec<TagValue>)
    ensures
        r.deep_view() == fields_model(object_fields(*obj), gems_parm_01_tags()),
{
    let schema = gems_parm_01_schema();
    extract_fields(obj, &schema)
}

/// A deep-extraction result: the entry's archive metadata and the core
/// identifier field set. A field whose tag is absent or uncoercible holds the
/// "absent" sentinel; the entry is still included.
#[derive(Debug, Clone, PartialEq)]
pub struct DeepDicomCandidate {
    pub index: usize,
    pub name: String,
    pub compressed_size: u64,
    pub uncompressed_size: u64,
    pub study_instance_uid: String,
    pub series_instance_uid: String,
    pub sop_instance_uid: String,
    pub manufacturer: String,
    pub modality: String,
    pub patient_id: String,
}

/// The mathematical image of a deep-extraction result.
pub struct DeepCandidateModel {
    pub index: int,
    pub name: Seq<char>,
    pub compressed_size: u64,
    pub uncompressed_size: u64,
    pub study_instance_uid: Seq<char>,
    pub series_instance_uid: Seq<char>,
    pub sop_instance_uid: Seq<char>,
    pub manufacturer: Seq<char>,
    pub modality: Seq<char>,
    pub patient_id: Seq<char>,
}

impl View for DeepDicomCandidate {
    type V = DeepCandidateModel;

    open spec fn view(&self) -> DeepCandidateModel {
        DeepCandidateModel {
            index: self.index as int,
            name: self.name@,
            compressed_size: self.compressed_size,
            uncompressed_size: self.uncompressed_size,
            study_instance_uid: self.study_instance_uid@,
            series_instance_uid: self.series_instance_uid@,
            sop_instance_uid: self.sop_instance_uid@,
            manufacturer: self.manufacturer@,
            modality: self.modality@,
            patient_id: self.patient_id@,
        }
    }
}

impl DeepView for DeepDicomCandidate {
    type V = DeepCandidateModel;

    open spec fn deep_view(&self) -> DeepCandidateModel {
        self.view()
    }
}

/// The core field set that a decoded object with field map `m` yields for the
/// entry at index `i`.
pub open spec fn deep_model(
    m: Map<(u16, u16), Seq<char>>,
    i: int,
    name: Seq<char>,
    compressed_size: u64,
    uncompressed_size: u64,
) -> DeepCandidateModel {
    DeepCandidateModel {
        index: i,
        name: name,
        compressed_size: compressed_size,
        uncompressed_size: uncompressed_size,
        study_instance_uid: field_str(m, 0x0020, 0x000D),
        series_instance_uid: field_str(m, 0x0020, 0x000E),
        sop_instance_uid: field_str(m, 0x0008, 0x0018),
        manufacturer: field_str(m, 0x0008, 0x0070),
        modality: field_str(m, 0x0008, 0x0060),
        patient_id: field_str(m, 0x0010, 0x0020),
    }
}

/// The decode-time classification of an object, from its class identifier and
/// modality.
#[derive(Clone, Copy, Debug, PartialEq, Eq, Structural)]
pub enum ObjectClass {
    /// The reserved class identifier of an enhanced multi-frame object,
    /// together with the reserved magnetic-resonance modality code.
    EnhancedMrImage,
    /// Any other object of the reserved magnetic-resonance modality code.
    MrImage,
    /// Everything else: only the core field set applies.
    Unrecognized,
}

/// The classification rule: the reserved class identifier and modality code
/// name an enhanced multi-frame object; the modality code alone names a
/// classic image; anything else is unrecognized.
pub open spec fn spec_classify(sop_class_uid: Seq<char>, modality: Seq<char>) -> ObjectClass {
    if sop_class_uid == "1.2.840.10008.5.1.4.1.1.4.1"@ && modality == "MR"@ {
        ObjectClass::EnhancedMrImage
    } else if modality == "MR"@ {
        ObjectClass::MrImage
    } else {
        ObjectClass::Unrecognized
    }
}

/// Classify an object from its class identifier and modality strings.
pub fn classify_object(sop_class_uid: &String, modality: &String) -> (r: ObjectClass)
    ensures
        r == spec_classify(sop_class_uid@, modality@),
{
    if str_eq(sop_class_uid.as_str(), "1.2.840.10008.5.1.4.1.1.4.1") && str_eq(
        modality.as_str(),
        "MR",
    ) {
        ObjectClass::EnhancedMrImage
    } else if str_eq(modality.as_str(), "MR") {
        ObjectClass::MrImage
    } else {
        ObjectClass::Unrecognized
    }
}

/// The classic-branch field set: the schema fields plus the derived
/// resolution display string.
pub struct MrImageFields {
    pub fields: Vec<TagValue>,
    pub resolution: String,
}

/// The mathematical image of the classic-branch field set.
pub struct MrImageModel {
    pub fields: Seq<TagValueModel>,
    pub resolution: Seq<char>,
}

impl DeepView for MrImageFields {
    type V = MrImageModel;

    open spec fn deep_view(&self) -> MrImageModel {
        MrImageModel { fields: self.fields.deep_view(), resolution: self.resolution@ }
    }
}

/// What the classic branch yields from field map `m`: its schema fields, and
/// the resolution derived from the matrix, row count, column count and pixel
/// spacing fields.
pub open spec fn mr_image_model(m: Map<(u16, u16), Seq<char>>) -> MrImageModel {
    MrImageModel {
        fields: fields_model(m, mr_image_tags()),
        resolution: spec_acq_resolution(
            field_str(m, 0x0018, 0x1310),
            field_str(m, 0x0028, 0x0010),
            field_str(m, 0x0028, 0x0011),
            field_str(m, 0x0028, 0x0030),
        ),
    }
}

/// Everything the deep extractor reads from one decoded entry: the core
/// candidate, the series descriptors, the classification, and the field set
/// of whichever branch the classification selects.
pub struct EntryReport {
    pub candidate: DeepDicomCandidate,
    pub sop_class_uid: String,
    pub series_description: String,
    pub series_date: String,
    pub series_number: String,
    pub series_time: String,
    pub class: ObjectClass,
    pub enhanced: Option<Vec<TagValue>>,
    pub mr: Option<MrImageFields>,
    pub vendor: Option<Vec<TagValue>>,
}

/// The mathematical image of a deep-extraction report.
pub struct ReportModel {
    pub candidate: DeepCandidateModel,
    pub sop_class_uid: Seq<char>,
    pub series_description: Seq<char>,
    pub series_date: Seq<char>,
    pub series_number: Seq<char>,
    pub series_time: Seq<char>,
    pub class: ObjectClass,
    pub enhanced: Option<Seq<TagValueModel>>,
    pub mr: Option<MrImageModel>,
    pub vendor: Option<Seq<TagValueModel>>,
}

impl DeepView for EntryReport {
    type V = ReportModel;

    open spec fn deep_view(&self) -> ReportModel {
        ReportModel {
            candidate: self.candidate.deep_view(),
            sop_class_uid: self.sop_class_uid@,
            series_description: self.series_description@,
            series_date: self.series_date@,
            series_number: self.series_number@,
            series_time: self.series_time@,
            class: self.class,
            enhanced: self.enhanced.deep_view(),
            mr: self.mr.deep_view(),
            vendor: self.vendor.deep_view(),
        }
    }
}

/// What the deep extractor yields for a decoded object with field map `m` at
/// entry index `i`: the core fields always; the enhanced schema exactly for
/// an enhanced multi-frame object; the classic schema with the derived
/// resolution exactly for a classic image; and the vendor-private schema
/// exactly for a classic image of the reserved manufacturer.
pub open spec fn spec_report(
    m: Map<(u16, u16), Seq<char>>,
    i: int,
    name: Seq<char>,
    compressed_size: u64,
    uncompressed_size: u64,
) -> ReportModel {
    let cand = deep_model(m, i, name, compressed_size, uncompressed_size);
    let sop_class_uid = field_str(m, 0x0008, 0x0016);
    let class = spec_classify(sop_class_uid, cand.modality);
    ReportModel {
        candidate: cand,
        sop_class_uid: sop_class_uid,
        series_description: field_str(m, 0x0008, 0x103E),
        series_date: field_str(m, 0x0008, 0x0021),
        series_number: field_str(m, 0x0020, 0x0011),
        series_time: field_str(m, 0x0008, 0x0031),
        class: class,
        enhanced: if class is EnhancedMrImage {
            Some(fields_model(m, enhanced_mr_tags()))
        } else {
            None
        },
        mr: if class is MrImage {
            Some(mr_image_model(m))
        } else {
            None
        },
        vendor: if class is MrImage && cand.manufacturer == "GE MEDICAL SYSTEMS"@ {
            Some(fields_model(m, ge_mr_tags()))
        } else {
            None
        },
    }
}

/// Extract one entry's full report from its decoded object.
pub fn extract_entry_report(
    obj: &DicomObj,
    index: usize,
    name: String,
    compressed_size: u64,
    uncompressed_size: u64,
) -> (r: EntryReport)
    ensures
        r.deep_view() == spec_report(
            object_fields(*obj),
            index as int,
            name@,
            compressed_size,
            uncompressed_size,
        ),
{
    let study_instance_uid = extract_field(obj, 0x0020, 0x000D);
    let series_instance_uid = extract_field(obj, 0x0020, 0x000E);
    let sop_instance_uid = extract_field(obj, 0x0008, 0x0018);
    let manufacturer = extract_field(obj, 0x0008, 0x0070);
    let modality = extract_field(obj, 0x0008, 0x0060);
    let patient_id = extract_field(obj, 0x0010, 0x0020);
    let sop_class_uid = extract_field(obj, 0x0008, 0x0016);
    let series_description = extract_field(obj, 0x0008, 0x103E);
    let series_date = extract_field(obj, 0x0008, 0x0021);
    let series_number = extract_field(obj, 0x0020, 0x0011);
    let series_time = extract_field(obj, 0x0008, 0x0031);
    let class = classify_object(&sop_class_uid, &modality);
    let enhanced = if matches!(class, ObjectClass::EnhancedMrImage) {
        let schema = enhanced_mr_schema();
        Some(extract_fields(obj, &schema))
    } else {
        None
    };
    let mr = if matches!(class, ObjectClass::MrImage) {
        let schema = mr_image_schema();
        let fields = extract_fields(obj, &schema);
        let acq_matrix = extract_field(obj, 0x0018, 0x1310);
        let rows = extract_field(obj, 0x0028, 0x0010);
        let columns = extract_field(obj, 0x0028, 0x0011);
        let pixel_spacing = extract_field(obj, 0x0028, 0x0030);
        let resolution = calculate_acq_resolution(acq_matrix, rows, columns, pixel_spacing);
        Some(MrImageFields { fields, resolution })
    } else {
        None
    };
    let vendor = if matches!(class, ObjectClass::MrImage) && str_eq(
        manufacturer.as_str(),
        "GE MEDICAL SYSTEMS",
    ) {
        let schema = ge_mr_schema();
        Some(extract_fields(obj, &schema))
    } else {
        None
    };
    let candidate = DeepDicomCandidate {
        index,
        name,
        compressed_size,
        uncompressed_size,
        study_instance_uid,
        series_instance_uid,
        sop_instance_uid,
        manufacturer,
        modality,
        patient_id,
    };
    EntryReport {
        candidate,
        sop_class_uid,
        series_description,
        series_date,
        series_number,
        series_time,
        class,
        enhanced,
        mr,
        vendor,
    }
}


/// What the deep extractor yields for one archive entry: nothing when the
/// entry is inaccessible, below the minimum size, not fully readable or not
/// decodable; its report otherwise.
pub open spec fn report_of_entry(e: EntryModel, i: int) -> Option<ReportModel> {
    if !e.accessible || e.uncompressed_size < 132 || !e.fully_readable {
        None
    } else {
        match dicom_parse(e.data) {
            None => None,
            Some(m) => Some(spec_report(m, i, e.name, e.compressed_size, e.uncompressed_size)),
        }
    }
}

/// The reports of the first `n` entries, in index order.
pub open spec fn deep_reports(entries: Seq<EntryModel>, n: int) -> Seq<ReportModel>
    decreases n,
{
    if n <= 0 {
        Seq::empty()
    } else {
        deep_reports(entries, n - 1) + match report_of_entry(entries[n - 1], n - 1) {
            None => Seq::empty(),
            Some(r) => seq![r],
        }
    }
}

/// What deep-scanning a byte buffer yields (meaningful when the buffer opens
/// as an archive).
pub open spec fn spec_deep_reports_of(bytes: Seq<u8>) -> Seq<ReportModel> {
    let entries = zip_entries_of(bytes)->Some_0;
    deep_reports(entries, entries.len() as int)
}

/// The core candidates of the first `n` entries: the reports stripped of
/// their branch fields.
pub open spec fn deep_candidates(entries: Seq<EntryModel>, n: int) -> Seq<DeepCandidateModel> {
    deep_reports(entries, n).map_values(|r: ReportModel| r.candidate)
}

/// What the candidate list of a deep scan of a byte buffer holds (meaningful
/// when the buffer opens as an archive).
pub open spec fn spec_deep_candidates_of(bytes: Seq<u8>) -> Seq<DeepCandidateModel> {
    let entries = zip_entries_of(bytes)->Some_0;
    deep_candidates(entries, entries.len() as int)
}

/// Attempt a bounded decode of every archive entry and report everything the
/// extractor reads from each entry that decodes. An entry that is too small,
/// unreadable or undecodable is skipped silently; only a buffer that does not
/// open as an archive fails the scan.
pub fn deep_scan_entry_reports(zip_bytes: &[u8]) -> (r: Result<Vec<EntryReport>, ScanError>)
    ensures
        (r is Err) == (zip_entries_of(zip_bytes@) is None),
        r matches Ok(v) ==> v.deep_view() == spec_deep_reports_of(zip_bytes@),
{
    let mut archive = match archive_open(zip_bytes) {
        None => {
            return Err(ScanError::ArchiveOpen);
        },
        Some(a) => a,
    };
    let ghost entries = zip_entries(archive);
    let n = archive_len(&archive);
    let mut out: Vec<EntryReport> = Vec::new();
    proof {
        assert(out.deep_view() =~= deep_reports(entries, 0));
    }
    let mut i: usize = 0;
    while i < n
        invariant
            i <= n,
            n == entries.len(),
            zip_entries(archive) == entries,
            zip_entries_of(zip_bytes@) == Some(entries),
            out.deep_view() == deep_reports(entries, i as int),
        decreases n - i,
    {
        let ghost e = entries[i as int];
        let ghost old_out = out.deep_view();
        match entry_meta(&mut archive, i) {
            None => {
                proof {
                    assert(deep_reports(entries, i + 1) =~= old_out);
                }
            },
            Some((name, compressed_size, uncompressed_size)) => {
                if uncompressed_size < 132 {
                    proof {
                        assert(deep_reports(entries, i + 1) =~= old_out);
                    }
                } else {
                    match entry_read_all(&mut archive, i) {
                        None => {
                            proof {
                                assert(deep_reports(entries, i + 1) =~= old_out);
                            }
                        },
                        Some(data) => {
                            match crate::dicom_io::dicom_from_bytes(data.as_slice()) {
                                None => {
                                    proof {
                                        assert(deep_reports(entries, i + 1) =~= old_out);
                                    }
                                },
                                Some(obj) => {
                                    let report = extract_entry_report(
                                        &obj,
                                        i,
                                        name,
                                        compressed_size,
                                        uncompressed_size,
                                    );
                                    proof {
                                        assert(report_of_entry(e, i as int) == Some(
                                            report.deep_view(),
                                        ));
                                    }
                                    out.push(report);
                                    proof {
                                        assert(out.deep_view() =~= old_out.push(
                                            report_of_entry(e, i as int)->Some_0,
                                        ));
                                        assert(deep_reports(entries, i + 1) =~= old_out.push(
                                            report_of_entry(e, i as int)->Some_0,
                                        ));
                                    }
                                },
                            }
                        },
                    }
                }
            },
        }
        i = i + 1;
    }
    Ok(out)
}

/// Attempt a bounded decode of every archive entry and collect the core field
/// set of every entry that decodes, in index order. An entry that is too
/// small, unreadable or undecodable is skipped silently; only a buffer that
/// does not open as an archive fails the scan.
pub fn deep_scan_dicom_candidates_parallel(zip_bytes: &[u8]) -> (r: Result<
    Vec<DeepDicomCandidate>,
    ScanError,
>)
    ensures
        (r is Err) == (zip_entries_of(zip_bytes@) is None),
        r matches Ok(v) ==> v.deep_view() == spec_deep_candidates_of(zip_bytes@),
{
    let reports = match deep_scan_entry_reports(zip_bytes) {
        Err(e) => {
            return Err(e);
        },
        Ok(v) => v,
    };
    let ghost rmodels = reports.deep_view();
    let mut out: Vec<DeepDicomCandidate> = Vec::new();
    proof {
        assert(out.deep_view() =~= rmodels.map_values(|r: ReportModel| r.candidate).take(0));
    }
    let n = reports.len();
    let mut i: usize = 0;
    while i < n
        invariant
            i <= n == reports@.len(),
            rmodels == reports.deep_view(),
            out.deep_view() == rmodels.map_values(|r: ReportModel| r.candidate).take(i as int),
        decreases n - i,
    {
        let ghost old_out = out.deep_view();
        let c = &reports[i].candidate;
        let cand = DeepDicomCandidate {
            index: c.index,
            name: c.name.clone(),
            compressed_size: c.compressed_size,
            uncompressed_size: c.uncompressed_size,
            study_instance_uid: c.study_instance_uid.clone(),
            series_instance_uid: c.series_instance_uid.clone(),
            sop_instance_uid: c.sop_instance_uid.clone(),
            manufacturer: c.manufacturer.clone(),
            modality: c.modality.clone(),
            patient_id: c.patient_id.clone(),
        };
        proof {
            assert(cand.deep_view() == rmodels.map_values(|r: ReportModel| r.candidate)[i as int]);
        }
        out.push(cand);
        proof {
            assert(out.deep_view() =~= old_out.push(
                rmodels.map_values(|r: ReportModel| r.candidate)[i as int],
            ));
            assert(out.deep_view() =~= rmodels.map_values(|r: ReportModel| r.candidate).take(
                i as int + 1,
            ));
        }
        i = i + 1;
    }
    proof {
        assert(rmodels.map_values(|r: ReportModel| r.candidate).take(n as int) =~= rmodels
            .map_values(|r: ReportModel| r.candidate));
    }
    Ok(out)
}

/// Every report comes from the entry its index names, exactly as
/// `report_of_entry` describes it.
pub proof fn lemma_deep_reports_sound(entries: Seq<EntryModel>, n: int, j: int)
    requires
        n <= entries.len(),
        0 <= j < deep_reports(entries, n).len(),
    ensures
        ({
            let r = deep_reports(entries, n)[j];
            &&& 0 <= r.candidate.index < n
            &&& report_of_entry(entries[r.candidate.index], r.candidate.index) == Some(r)
        }),
    decreases n,
{
    if n > 0 {
        let prev = deep_reports(entries, n - 1);
        if j < prev.len() {
            lemma_deep_reports_sound(entries, n - 1, j);
        }
    }
}

/// Every entry with a report appears in the scan.
pub proof fn lemma_deep_reports_complete(entries: Seq<EntryModel>, n: int, i: int)
    requires
        0 <= i < n <= entries.len(),
        report_of_entry(entries[i], i) is Some,
    ensures
        deep_reports(entries, n).contains(report_of_entry(entries[i], i)->Some_0),
    decreases n,
{
    let r = report_of_entry(entries[i], i)->Some_0;
    if i == n - 1 {
        assert(deep_reports(entries, n)[deep_reports(entries, n - 1).len() as int] == r);
    } else {
        lemma_deep_reports_complete(entries, n - 1, i);
        let prev = deep_reports(entries, n - 1);
        let j = choose|j: int| 0 <= j < prev.len() && prev[j] == r;
        assert(deep_reports(entries, n)[j] == r);
    }
}

/// An entry smaller than 132 bytes is never a deep candidate.
pub proof fn lemma_small_entry_excluded_deep(entries: Seq<EntryModel>, n: int, i: int)
    requires
        n <= entries.len(),
        0 <= i < entries.len(),
        entries[i].uncompressed_size < 132,
    ensures
        forall|j: int|
            0 <= j < deep_reports(entries, n).len() ==> (#[trigger] deep_reports(
                entries,
                n,
            )[j]).candidate.index != i,
{
    assert forall|j: int|
        0 <= j < deep_reports(entries, n).len() implies (#[trigger] deep_reports(
        entries,
        n,
    )[j]).candidate.index != i by {
        lemma_deep_reports_sound(entries, n, j);
    }
}

/// Re-running the deep extractor on an unchanged byte buffer yields the same
/// report sequence: the result is a function of the buffer alone.
pub proof fn lemma_deep_scan_idempotent(
    bytes: Seq<u8>,
    r1: Seq<ReportModel>,
    r2: Seq<ReportModel>,
)
    requires
        r1 == spec_deep_reports_of(bytes),
        r2 == spec_deep_reports_of(bytes),
    ensures
        r1 == r2,
{
}

/// The degraded-field law: an entry that decodes is reported even when an
/// optional tag is absent, and each core field whose tag is absent from the
/// decoded object holds the "absent" sentinel rather than dropping the entry.
pub proof fn lemma_degraded_field_reported(entries: Seq<EntryModel>, n: int, i: int)
    requires
        0 <= i < n <= entries.len(),
        entries[i].accessible,
        entries[i].uncompressed_size >= 132,
        entries[i].fully_readable,
        dicom_parse(entries[i].data) is Some,
    ensures
        deep_reports(entries, n).contains(report_of_entry(entries[i], i)->Some_0),
        ({
            let m = dicom_parse(entries[i].data)->Some_0;
            let r = report_of_entry(entries[i], i)->Some_0;
            &&& (!m.dom().contains((0x0020u16, 0x000Du16)) ==> r.candidate.study_instance_uid
                == "N/A"@)
            &&& (!m.dom().contains((0x0020u16, 0x000Eu16)) ==> r.candidate.series_instance_uid
                == "N/A"@)
            &&& (!m.dom().contains((0x0008u16, 0x0018u16)) ==> r.candidate.sop_instance_uid
                == "N/A"@)
            &&& (!m.dom().contains((0x0008u16, 0x0070u16)) ==> r.candidate.manufacturer == "N/A"@)
            &&& (!m.dom().contains((0x0008u16, 0x0060u16)) ==> r.candidate.modality == "N/A"@)
            &&& (!m.dom().contains((0x0010u16, 0x0020u16)) ==> r.candidate.patient_id == "N/A"@)
        }),
{
    lemma_deep_reports_complete(entries, n, i);
}

} // verus!
