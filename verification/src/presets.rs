//! Compression presets and the Ghostscript settings each one selects.
use vstd::prelude::*;
use crate::text::{digits_value, parse_usize};

verus! {

/// How strongly the merged document is recompressed.
#[derive(Clone, Copy, Debug, PartialEq, Eq, Structural)]
pub enum CompressionPreset {
    NoCompression,
    Low,
    Medium,
    High,
    Aggressive,
}

/// The Ghostscript parameters of one preset.
#[derive(Clone, Copy, Debug)]
pub struct GsSettings {
    pub pdf_settings: &'static str,
    pub color_res: &'static str,
    pub gray_res: &'static str,
    pub mono_res: &'static str,
    pub downsample_type: &'static str,
}

/// The text of each Ghostscript parameter.
pub struct GsSettingsView {
    pub pdf_settings: Seq<char>,
    pub color_res: Seq<char>,
    pub gray_res: Seq<char>,
    pub mono_res: Seq<char>,
    pub downsample_type: Seq<char>,
}

impl View for GsSettings {
    type V = GsSettingsView;

    open spec fn view(&self) -> GsSettingsView {
        GsSettingsView {
            pdf_settings: self.pdf_settings@,
            color_res: self.color_res@,
            gray_res: self.gray_res@,
            mono_res: self.mono_res@,
            downsample_type: self.downsample_type@,
        }
    }
}

pub open spec fn settings_view(
    pdf: &str,
    color: &str,
    gray: &str,
    mono: &str,
    downsample: &str,
) -> GsSettingsView {
    GsSettingsView {
        pdf_settings: pdf@,
        color_res: color@,
        gray_res: gray@,
        mono_res: mono@,
        downsample_type: downsample@,
    }
}

/// The settings table: `/Average` downsampling everywhere but `Aggressive`.
pub open spec fn preset_settings(preset: CompressionPreset) -> GsSettingsView {
    match preset {
        CompressionPreset::NoCompression => settings_view("/printer", "300", "300", "300", "/Average"),
        CompressionPreset::Low => settings_view("/prepress", "300", "300", "300", "/Average"),
        CompressionPreset::Medium => settings_view("/printer", "150", "150", "300", "/Average"),
        CompressionPreset::High => settings_view("/ebook", "150", "150", "200", "/Average"),
        CompressionPreset::Aggressive => settings_view("/screen", "72", "72", "150", "/Subsample"),
    }
}

/// The Ghostscript settings that `preset` selects.
pub fn preset_to_gs_settings(preset: &CompressionPreset) -> (s: GsSettings)
    ensures
        s@ == preset_settings(*preset),
{
    match preset {
        CompressionPreset::NoCompression => GsSettings {
            pdf_settings: "/printer",
            color_res: "300",
            gray_res: "300",
            mono_res: "300",
            downsample_type: "/Average",
        },
        CompressionPreset::Low => GsSettings {
            pdf_settings: "/prepress",
            color_res: "300",
            gray_res: "300",
            mono_res: "300",
            downsample_type: "/Average",
        },
        CompressionPreset::Medium => GsSettings {
            pdf_settings: "/printer",
            color_res: "150",
            gray_res: "150",
            mono_res: "300",
            downsample_type: "/Average",
        },
        CompressionPreset::High => GsSettings {
            pdf_settings: "/ebook",
            color_res: "150",
            gray_res: "150",
            mono_res: "200",
            downsample_type: "/Average",
        },
        CompressionPreset::Aggressive => GsSettings {
            pdf_settings: "/screen",
            color_res: "72",
            gray_res: "72",
            mono_res: "150",
            downsample_type: "/Subsample",
        },
    }
}

/// The presets from the mildest to the strongest.
pub open spec fn preset_rank(p: CompressionPreset) -> nat {
    match p {
        CompressionPreset::NoCompression => 0,
        CompressionPreset::Low => 1,
        CompressionPreset::Medium => 2,
        CompressionPreset::High => 3,
        CompressionPreset::Aggressive => 4,
    }
}

/// The three resolutions a preset selects, each read as a number.
pub open spec fn resolutions(p: CompressionPreset) -> (Option<nat>, Option<nat>, Option<nat>) {
    let s = preset_settings(p);
    (parse_usize(s.color_res), parse_usize(s.gray_res), parse_usize(s.mono_res))
}

proof fn lemma_resolution_texts()
    ensures
        parse_usize("300"@) == Some(300nat),
        parse_usize("200"@) == Some(200nat),
        parse_usize("150"@) == Some(150nat),
        parse_usize("72"@) == Some(72nat),
        "/Average"@ != "/Subsample"@,
{
    reveal_strlit("300");
    reveal_strlit("200");
    reveal_strlit("150");
    reveal_strlit("72");
    reveal_strlit("/Average");
    reveal_strlit("/Subsample");
    reveal_with_fuel(digits_value, 4);
    assert("/Average"@[1] != "/Subsample"@[1]);
}

/// A stronger preset never selects a higher resolution: every resolution is a
/// number, and each of the colour, grey and monochrome resolutions of `q` is at most
/// that of `p` when `q` is at least as strong. Only `Aggressive` downsamples by
/// `/Subsample`; every other preset uses `/Average`.
pub proof fn stronger_presets_never_raise_resolution(p: CompressionPreset, q: CompressionPreset)
    requires
        preset_rank(p) <= preset_rank(q),
    ensures
        ({
            let (cp, gp, mp) = resolutions(p);
            let (cq, gq, mq) = resolutions(q);
            &&& cp is Some && gp is Some && mp is Some
            &&& cq is Some && gq is Some && mq is Some
            &&& cq->0 <= cp->0 && gq->0 <= gp->0 && mq->0 <= mp->0
        }),
        preset_settings(q).downsample_type == (if q == CompressionPreset::Aggressive {
            "/Subsample"@
        } else {
            "/Average"@
        }),
        (preset_settings(q).downsample_type == "/Subsample"@) <==> q == CompressionPreset::Aggressive,
{
    lemma_resolution_texts();
}

} // verus!
