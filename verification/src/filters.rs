//! Video and audio filter chains.
//!
//! A chain is a list of filter expressions; the synthesizer joins it with
//! commas.  The order of the video filters is fixed: flips, rotation, crop,
//! burned-in subtitles, scale.

use vstd::prelude::*;
use vstd::string::*;
use crate::media_rules::{one_of, texts};
use crate::text::{
    all_digits, char_is_digit, chars_of, decimal, is_digit, push_decimal, push_owned, str_eq, trim,
    trimmed, views,
};
use crate::types::{opt_view, ConversionConfig, CropConfig, VOLUME_EPSILON, VOLUME_UNITY};

verus! {

/// A list of at most one filter.
pub open spec fn optional(f: Option<Seq<char>>) -> Seq<Seq<char>> {
    match f {
        Some(x) => seq![x],
        None => seq![],
    }
}

/// The transpose filter for a rotation in degrees.
pub open spec fn rotation_filter(rotation: Seq<char>) -> Option<Seq<char>> {
    if rotation == "90"@ {
        Some("transpose=1"@)
    } else if rotation == "180"@ {
        Some("transpose=1,transpose=1"@)
    } else if rotation == "270"@ {
        Some("transpose=2"@)
    } else {
        None
    }
}

/// `v`, or `least` if `v` is below it.
pub open spec fn at_least(v: int, least: int) -> nat {
    if v < least {
        least as nat
    } else {
        v as nat
    }
}

/// The crop filter: width and height at least one pixel, offsets not
/// negative.
pub open spec fn crop_filter(crop: Option<CropConfig>) -> Option<Seq<char>> {
    match crop {
        Some(k) => if k.enabled {
            Some(
                "crop="@ + decimal(at_least(k.width as int, 1)) + ":"@ + decimal(
                    at_least(k.height as int, 1),
                ) + ":"@ + decimal(at_least(k.x as int, 0)) + ":"@ + decimal(
                    at_least(k.y as int, 0),
                ),
            )
        } else {
            None
        },
        None => None,
    }
}

/// What one character of a path becomes inside a filter expression.
pub open spec fn escaped_char(c: char) -> Seq<char> {
    if c == '\\' {
        "/"@
    } else if c == ':' {
        "\\:"@
    } else {
        seq![c]
    }
}

/// A path as it is written inside a filter expression: backslashes become
/// slashes, colons are escaped.
pub open spec fn escaped_path(p: Seq<char>) -> Seq<char>
    decreases p.len(),
{
    if p.len() == 0 {
        Seq::empty()
    } else {
        escaped_path(p.drop_last()) + escaped_char(p.last())
    }
}

/// Whether subtitles are to be burned into the picture.
pub open spec fn has_burn_subtitles(c: &ConversionConfig) -> bool {
    c.subtitle_burn_path matches Some(p) && trimmed(p@).len() > 0
}

pub open spec fn burn_filter(c: &ConversionConfig) -> Option<Seq<char>> {
    match c.subtitle_burn_path {
        Some(p) => if trimmed(p@).len() > 0 {
            Some("subtitles='"@ + escaped_path(p@) + "'"@)
        } else {
            None
        },
        None => None,
    }
}

/// The scaler flags for a known scaling algorithm.
pub open spec fn scale_flags(algorithm: Seq<char>) -> Seq<char> {
    if seq!["bicubic"@, "bilinear"@, "lanczos"@, "neighbor"@].contains(algorithm) {
        ":flags="@ + algorithm
    } else {
        Seq::empty()
    }
}

/// The height that a resolution such as `720p` names.
pub open spec fn named_height(resolution: Seq<char>) -> Option<Seq<char>> {
    if resolution.len() >= 2 && resolution.last() == 'p' && all_digits(resolution.drop_last()) {
        Some(resolution.drop_last())
    } else {
        None
    }
}

/// A dimension as typed, or `-1` where none was given.
pub open spec fn dimension(d: Option<String>) -> Seq<char> {
    match d {
        Some(v) => v@,
        None => "-1"@,
    }
}

pub open spec fn scale_filter(c: &ConversionConfig) -> Option<Seq<char>> {
    if c.resolution@ == "custom"@ {
        Some(
            "scale="@ + dimension(c.custom_width) + ":"@ + dimension(c.custom_height)
                + scale_flags(c.scaling_algorithm@),
        )
    } else {
        match named_height(c.resolution@) {
            Some(h) => Some("scale=-2:"@ + h + scale_flags(c.scaling_algorithm@)),
            None => None,
        }
    }
}

/// The video filter chain, in its fixed order.
pub open spec fn video_filters(c: &ConversionConfig, include_scale: bool) -> Seq<Seq<char>> {
    optional(
        if c.flip_horizontal {
            Some("hflip"@)
        } else {
            None
        },
    ) + optional(
        if c.flip_vertical {
            Some("vflip"@)
        } else {
            None
        },
    ) + optional(rotation_filter(c.rotation@)) + optional(crop_filter(c.crop)) + optional(
        burn_filter(c),
    ) + optional(
        if include_scale {
            scale_filter(c)
        } else {
            None
        },
    )
}

/// Whether the volume differs from unity by more than the tolerance.
pub open spec fn volume_changed(volume: u32) -> bool {
    volume > VOLUME_UNITY + VOLUME_EPSILON || volume + VOLUME_EPSILON < VOLUME_UNITY
}

/// The volume as a factor with two decimals, rounded half up.
pub open spec fn volume_factor(volume: u32) -> Seq<char> {
    let h = ((volume + 50) / 100) as nat;
    decimal(h / 100) + "."@ + decimal(h / 10 % 10) + decimal(h % 10)
}

/// The audio filter chain: loudness normalization, then volume.
pub open spec fn audio_filters(c: &ConversionConfig) -> Seq<Seq<char>> {
    optional(
        if c.audio_normalize {
            Some("loudnorm=I=-16:TP=-1.5:LRA=11"@)
        } else {
            None
        },
    ) + optional(
        if volume_changed(c.audio_volume) {
            Some("volume="@ + volume_factor(c.audio_volume))
        } else {
            None
        },
    )
}

fn build_rotation_filter(rotation: &str) -> (r: Option<String>)
    ensures
        opt_view(r) == rotation_filter(rotation@),
{
    if str_eq(rotation, "90") {
        Some(String::from_str("transpose=1"))
    } else if str_eq(rotation, "180") {
        Some(String::from_str("transpose=1,transpose=1"))
    } else if str_eq(rotation, "270") {
        Some(String::from_str("transpose=2"))
    } else {
        None
    }
}

fn push_at_least(out: &mut String, v: i32, least: i32)
    requires
        least >= 0,
    ensures
        final(out)@ == old(out)@ + decimal(at_least(v as int, least as int)),
{
    if v < least {
        push_decimal(out, least as u64);
    } else {
        push_decimal(out, v as u64);
    }
}

fn build_crop_filter(crop: &Option<CropConfig>) -> (r: Option<String>)
    ensures
        opt_view(r) == crop_filter(*crop),
{
    match crop {
        Some(k) => {
            if k.enabled {
                let mut out = String::from_str("crop=");
                push_at_least(&mut out, k.width, 1);
                out.append(":");
                push_at_least(&mut out, k.height, 1);
                out.append(":");
                push_at_least(&mut out, k.x, 0);
                out.append(":");
                push_at_least(&mut out, k.y, 0);
                Some(out)
            } else {
                None
            }
        },
        None => None,
    }
}

/// Writes `path` as it stands inside a filter expression.
pub fn escape_filter_path(path: &str) -> (r: String)
    ensures
        r@ == escaped_path(path@),
{
    let v = chars_of(path);
    let mut out = String::new();
    let mut i: usize = 0;
    while i < v.len()
        invariant
            i <= v.len(),
            v@ == path@,
            out@ == escaped_path(path@.take(i as int)),
        decreases v.len() - i,
    {
        let c = v[i];
        if c == '\\' {
            out.append("/");
        } else if c == ':' {
            out.append("\\:");
        } else {
            let one = path.substring_char(i, i + 1);
            assert(one@ =~= seq![c]);
            out.append(one);
        }
        proof {
            let t = path@.take(i + 1);
            assert(t.drop_last() =~= path@.take(i as int));
            assert(t.last() == c);
        }
        i += 1;
    }
    assert(path@.take(v.len() as int) =~= path@);
    out
}

/// Whether `config` asks for subtitles to be burned into the picture.
pub fn burns_subtitles(config: &ConversionConfig) -> (r: bool)
    ensures
        r == has_burn_subtitles(config),
{
    match &config.subtitle_burn_path {
        Some(p) => !trim(p.as_str()).is_empty(),
        None => false,
    }
}

fn build_burn_filter(config: &ConversionConfig) -> (r: Option<String>)
    ensures
        opt_view(r) == burn_filter(config),
{
    match &config.subtitle_burn_path {
        Some(p) => {
            if !trim(p.as_str()).is_empty() {
                let mut out = String::from_str("subtitles='");
                let escaped = escape_filter_path(p.as_str());
                out.append(escaped.as_str());
                out.append("'");
                Some(out)
            } else {
                None
            }
        },
        None => None,
    }
}

fn push_scale_flags(out: &mut String, algorithm: &str)
    ensures
        final(out)@ == old(out)@ + scale_flags(algorithm@),
{
    let known = ["bicubic", "bilinear", "lanczos", "neighbor"];
    assert(texts(known@) =~= seq!["bicubic"@, "bilinear"@, "lanczos"@, "neighbor"@]);
    if one_of(algorithm, known.as_slice()) {
        out.append(":flags=");
        out.append(algorithm);
        assert(out@ =~= old(out)@ + scale_flags(algorithm@));
    } else {
        assert(out@ =~= old(out)@ + scale_flags(algorithm@));
    }
}

/// The digits of a resolution such as `720p`.
fn read_named_height<'a>(resolution: &'a str) -> (r: Option<&'a str>)
    ensures
        match r {
            Some(h) => named_height(resolution@) == Some(h@),
            None => named_height(resolution@) is None,
        },
{
    let v = chars_of(resolution);
    let n = v.len();
    if n < 2 || v[n - 1] != 'p' {
        return None;
    }
    let mut i: usize = 0;
    while i < n - 1
        invariant
            i <= n - 1,
            n == v.len(),
            v@ == resolution@,
            forall|j: int| 0 <= j < i ==> is_digit(#[trigger] v@[j]),
        decreases n - i,
    {
        if !char_is_digit(v[i]) {
            assert(v@.drop_last()[i as int] == v@[i as int]);
            return None;
        }
        i += 1;
    }
    assert(v@.drop_last() =~= v@.subrange(0, n - 1));
    Some(resolution.substring_char(0, n - 1))
}

/// Reads a dimension as typed, or `-1` where none was given.
pub fn dimension_or_auto<'a>(d: &'a Option<String>) -> (r: &'a str)
    ensures
        r@ == dimension(*d),
{
    match d {
        Some(v) => v.as_str(),
        None => "-1",
    }
}

fn build_scale_filter(config: &ConversionConfig) -> (r: Option<String>)
    ensures
        opt_view(r) == scale_filter(config),
{
    if str_eq(config.resolution.as_str(), "custom") {
        let mut out = String::from_str("scale=");
        out.append(dimension_or_auto(&config.custom_width));
        out.append(":");
        out.append(dimension_or_auto(&config.custom_height));
        push_scale_flags(&mut out, config.scaling_algorithm.as_str());
        Some(out)
    } else {
        match read_named_height(config.resolution.as_str()) {
            Some(h) => {
                let mut out = String::from_str("scale=-2:");
                out.append(h);
                push_scale_flags(&mut out, config.scaling_algorithm.as_str());
                Some(out)
            },
            None => None,
        }
    }
}

fn push_optional(filters: &mut Vec<String>, f: Option<String>)
    ensures
        views(final(filters)@) == views(old(filters)@) + optional(opt_view(f)),
{
    match f {
        Some(x) => {
            let ghost t = x@;
            push_owned(filters, x);
            assert(views(filters@) =~= views(old(filters)@) + seq![t]);
        },
        None => {
            assert(views(filters@) =~= views(old(filters)@) + Seq::<Seq<char>>::empty());
        },
    }
}

/// Builds the video filter chain; the scale filter is left out unless
/// `include_scale` is set.
pub fn build_video_filters(config: &ConversionConfig, include_scale: bool) -> (r: Vec<String>)
    ensures
        views(r@) == video_filters(config, include_scale),
{
    let mut filters: Vec<String> = Vec::new();
    push_optional(
        &mut filters,
        if config.flip_horizontal {
            Some(String::from_str("hflip"))
        } else {
            None
        },
    );
    push_optional(
        &mut filters,
        if config.flip_vertical {
            Some(String::from_str("vflip"))
        } else {
            None
        },
    );
    push_optional(&mut filters, build_rotation_filter(config.rotation.as_str()));
    push_optional(&mut filters, build_crop_filter(&config.crop));
    push_optional(&mut filters, build_burn_filter(config));
    push_optional(
        &mut filters,
        if include_scale {
            build_scale_filter(config)
        } else {
            None
        },
    );
    assert(views(filters@) =~= video_filters(config, include_scale));
    filters
}

pub fn is_volume_changed(volume: u32) -> (r: bool)
    ensures
        r == volume_changed(volume),
{
    volume as u64 > VOLUME_UNITY as u64 + VOLUME_EPSILON as u64 || (volume as u64)
        + (VOLUME_EPSILON as u64) < VOLUME_UNITY as u64
}

fn build_volume_filter(volume: u32) -> (r: String)
    ensures
        r@ == "volume="@ + volume_factor(volume),
{
    let h: u64 = (volume as u64 + 50) / 100;
    let mut out = String::from_str("volume=");
    push_decimal(&mut out, h / 100);
    out.append(".");
    push_decimal(&mut out, h / 10 % 10);
    push_decimal(&mut out, h % 10);
    assert(out@ =~= "volume="@ + volume_factor(volume));
    out
}

/// Builds the audio filter chain.
pub fn build_audio_filters(config: &ConversionConfig) -> (r: Vec<String>)
    ensures
        views(r@) == audio_filters(config),
{
    let mut filters: Vec<String> = Vec::new();
    push_optional(
        &mut filters,
        if config.audio_normalize {
            Some(String::from_str("loudnorm=I=-16:TP=-1.5:LRA=11"))
        } else {
            None
        },
    );
    push_optional(
        &mut filters,
        if is_volume_changed(config.audio_volume) {
            Some(build_volume_filter(config.audio_volume))
        } else {
            None
        },
    );
    assert(views(filters@) =~= audio_filters(config));
    filters
}

} // verus!
