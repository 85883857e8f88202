//! Command handling: curve arguments, which variants to write and where.

use vstd::prelude::*;
use vstd::string::*;

pub use crate::cli_args::{CurveTypeArg, OutputFormat, VariantArg};

use crate::curves::CurveType;
use crate::generate::SchemeVariant;


verus! {

/// The curve type a command-line curve choice selects.
pub open spec fn curve_of_arg(arg: CurveTypeArg) -> CurveType {
    match arg {
        CurveTypeArg::Linear => CurveType::Linear,
        CurveTypeArg::Smoothstep => CurveType::Smoothstep,
        CurveTypeArg::Smootherstep => CurveType::Smootherstep,
        CurveTypeArg::SmoothStart => CurveType::SmoothStart,
        CurveTypeArg::SmoothEnd => CurveType::SmoothEnd,
        CurveTypeArg::Sigmoid => CurveType::Sigmoid,
    }
}

impl From<CurveTypeArg> for CurveType {
    fn from(arg: CurveTypeArg) -> (r: Self) {
        match arg {
            CurveTypeArg::Linear => CurveType::Linear,
            CurveTypeArg::Smoothstep => CurveType::Smoothstep,
            CurveTypeArg::Smootherstep => CurveType::Smootherstep,
            CurveTypeArg::SmoothStart => CurveType::SmoothStart,
            CurveTypeArg::SmoothEnd => CurveType::SmoothEnd,
            CurveTypeArg::Sigmoid => CurveType::Sigmoid,
        }
    }
}

impl vstd::std_specs::convert::FromSpecImpl<CurveTypeArg> for CurveType {
    open spec fn obeys_from_spec() -> bool {
        true
    }

    open spec fn from_spec(v: CurveTypeArg) -> Self {
        curve_of_arg(v)
    }
}

/// The display label of a command-line curve choice: the label of the
/// curve type of the same name.
pub open spec fn curve_arg_label(arg: CurveTypeArg) -> Seq<char> {
    match arg {
        CurveTypeArg::Linear => "Linear"@,
        CurveTypeArg::Smoothstep => "Smoothstep"@,
        CurveTypeArg::Smootherstep => "Smootherstep"@,
        CurveTypeArg::SmoothStart => "Ease In"@,
        CurveTypeArg::SmoothEnd => "Ease Out"@,
        CurveTypeArg::Sigmoid => "Sigmoid"@,
    }
}

/// Each curve choice selects the curve type of the same name: the labels
/// agree, two different choices select different curve types, and no
/// choice selects the B-spline, which has no command-line name.
pub proof fn lemma_curve_arg_keeps_name(a: CurveTypeArg, b: CurveTypeArg)
    ensures
        crate::curves::curve_label(curve_of_arg(a)) == curve_arg_label(a),
        curve_of_arg(a) == curve_of_arg(b) ==> a == b,
        curve_of_arg(a) != CurveType::BSpline,
{
    reveal_strlit("Linear");
    reveal_strlit("Smoothstep");
    reveal_strlit("Smootherstep");
    reveal_strlit("Ease In");
    reveal_strlit("Ease Out");
    reveal_strlit("Sigmoid");
}

/// Message of `--variant both` without `--output`.
pub open spec fn both_needs_output_message() -> Seq<char> {
    "--variant both requires --output to specify base filename"@
}

/// The variants to generate for a variant choice: one forced variant, both
/// (dark first), or one automatic (`None`).  Generating both needs an output
/// file to name the two results after.
pub fn variants_to_generate(variant: VariantArg, has_output: bool) -> (r: Result<
    Vec<Option<SchemeVariant>>,
    String,
>)
    ensures
        variant == VariantArg::Both && !has_output ==> r is Err && r->Err_0@
            == both_needs_output_message(),
        r matches Ok(v) ==> !(variant == VariantArg::Both && !has_output) && v@ == (match variant {
            VariantArg::Dark => seq![Some(SchemeVariant::Dark)],
            VariantArg::Light => seq![Some(SchemeVariant::Light)],
            VariantArg::Both => seq![Some(SchemeVariant::Dark), Some(SchemeVariant::Light)],
            VariantArg::Auto => seq![None],
        }),
        !(variant == VariantArg::Both && !has_output) ==> r is Ok,
{
    match variant {
        VariantArg::Dark => Ok(vec![Some(SchemeVariant::Dark)]),
        VariantArg::Light => Ok(vec![Some(SchemeVariant::Light)]),
        VariantArg::Both => {
            if !has_output {
                return Err(
                    "--variant both requires --output to specify base filename".to_owned(),
                );
            }
            Ok(vec![Some(SchemeVariant::Dark), Some(SchemeVariant::Light)])
        },
        VariantArg::Auto => Ok(vec![None]),
    }
}

/// File extension of an output format.
pub open spec fn format_extension(format: OutputFormat) -> Seq<char> {
    match format {
        OutputFormat::Yaml => "yaml"@,
        OutputFormat::Json => "json"@,
    }
}

/// File-name suffix of a variant.
pub open spec fn variant_file_suffix(variant: SchemeVariant) -> Seq<char> {
    match variant {
        SchemeVariant::Dark => "-dark"@,
        SchemeVariant::Light => "-light"@,
    }
}

/// Two variant file names made from one stem differ whenever their
/// variants or their formats differ, and each ends with its format's
/// extension.
pub proof fn lemma_variant_file_names_distinct(
    stem: Seq<char>,
    v1: SchemeVariant,
    f1: OutputFormat,
    v2: SchemeVariant,
    f2: OutputFormat,
)
    ensures
        stem + variant_file_suffix(v1) + "."@ + format_extension(f1) == stem + variant_file_suffix(v2)
            + "."@ + format_extension(f2) ==> v1 == v2 && f1 == f2,
{
    reveal_strlit("-dark");
    reveal_strlit("-light");
    reveal_strlit(".");
    reveal_strlit("yaml");
    reveal_strlit("json");
    let n1 = stem + variant_file_suffix(v1) + "."@ + format_extension(f1);
    let n2 = stem + variant_file_suffix(v2) + "."@ + format_extension(f2);
    if n1 == n2 {
        assert(n1.len() == n2.len());
        if v1 == v2 {
            assert(n1[n1.len() - 1] == n2[n2.len() - 1]);
        }
    }
}

/// File name for one variant when both are written: the base file's stem,
/// the variant suffix and the format's extension (`theme-dark.yaml`).
pub fn variant_file_name(stem: &str, variant: SchemeVariant, format: OutputFormat) -> (r: String)
    ensures
        r@ == stem@ + variant_file_suffix(variant) + "."@ + format_extension(format),
{
    let mut name = stem.to_owned();
    match variant {
        SchemeVariant::Dark => name.append("-dark"),
        SchemeVariant::Light => name.append("-light"),
    }
    name.append(".");
    match format {
        OutputFormat::Yaml => name.append("yaml"),
        OutputFormat::Json => name.append("json"),
    }
    name
}

} // verus!
