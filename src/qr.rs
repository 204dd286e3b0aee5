//! QR codes for sharing a room URL, as SVG or as an SVG data URL.

use vstd::prelude::*;
use vstd::string::*;
use vstd::utf8::encode_utf8;

verus! {

/// Rendering options; each unset option takes its default.
#[derive(Debug, Clone)]
pub struct QrOptions {
    /// Scale factor (default 4): modules are sized as if the image, quiet zone
    /// included, were to be at least ten times this many pixels wide; without a
    /// quiet zone the image is narrower by the zone's width.
    pub size: Option<u32>,
    /// Quiet zone; any value above 0 draws it (default 2).
    pub margin: Option<u32>,
    /// Colour of dark modules (default "#000000").
    pub fg_color: Option<String>,
    /// Colour of light modules (default "#ffffff").
    pub bg_color: Option<String>,
}

impl Default for QrOptions {
    fn default() -> (r: Self)
        ensures
            r.size is None,
            r.margin is None,
            r.fg_color is None,
            r.bg_color is None,
    {
        QrOptions { size: None, margin: None, fg_color: None, bg_color: None }
    }
}

/// Largest image dimension the renderer is asked for: its size arithmetic is
/// done in `u32` and must not overflow.
pub const MAX_QR_DIMENSION: u32 = 4_000_000_000;

/// The SVG image that qrcode renders for `data` (error correction level M),
/// its modules sized for an image of at least `min_dim` pixels counting the
/// quiet zone, drawn with or without that zone, in the given colours; `None`
/// when the data does not fit a QR code.
pub uninterp spec fn qr_svg(
    data: Seq<char>,
    min_dim: u32,
    quiet_zone: bool,
    dark: Seq<char>,
    light: Seq<char>,
) -> Option<Seq<char>>;

/// Relies on qrcode's `QrCode::new`, which fails only when the data does not
/// fit a QR code, and on its SVG renderer (`min_dimensions`, `quiet_zone`,
/// `dark_color`, `light_color`, `build`); the image depends on the arguments alone.
#[verifier::external_body]
fn render_qr_svg(data: &str, min_dim: u32, quiet_zone: bool, dark: &str, light: &str) -> (r: Result<
    String,
    String,
>)
    requires
        min_dim <= MAX_QR_DIMENSION,
    ensures
        match r {
            Ok(svg) => qr_svg(data@, min_dim, quiet_zone, dark@, light@) == Some(svg@),
            Err(_) => qr_svg(data@, min_dim, quiet_zone, dark@, light@) is None,
        },
{
    let code = qrcode::QrCode::new(data.as_bytes()).map_err(|e| e.to_string())?;
    Ok(
        code.render::<qrcode::render::svg::Color>().min_dimensions(min_dim, min_dim).quiet_zone(
            quiet_zone,
        ).dark_color(qrcode::render::svg::Color(dark)).light_color(
            qrcode::render::svg::Color(light),
        ).build(),
    )
}

pub open spec fn option_or(o: Option<u32>, d: u32) -> u32 {
    match o {
        Some(x) => x,
        None => d,
    }
}

pub open spec fn color_or(o: Option<String>, d: Seq<char>) -> Seq<char> {
    match o {
        Some(c) => c@,
        None => d,
    }
}

/// Options whose image size the renderer can compute.
pub open spec fn qr_options_in_range(options: QrOptions) -> bool {
    option_or(options.size, 4) * 10 <= MAX_QR_DIMENSION
}

/// The SVG for `data` under `options`, defaults filled in.
pub open spec fn qr_svg_for(data: Seq<char>, options: QrOptions) -> Option<Seq<char>> {
    qr_svg(
        data,
        (option_or(options.size, 4) * 10) as u32,
        option_or(options.margin, 2) > 0,
        color_or(options.fg_color, "#000000"@),
        color_or(options.bg_color, "#ffffff"@),
    )
}

/// The QR code of `data` as an SVG document, or the reason it cannot be made.
pub fn generate_qr_svg(data: &str, options: &QrOptions) -> (r: Result<String, String>)
    requires
        qr_options_in_range(*options),
    ensures
        match r {
            Ok(svg) => qr_svg_for(data@, *options) == Some(svg@),
            Err(_) => qr_svg_for(data@, *options) is None,
        },
{
    let size = match options.size {
        Some(s) => s,
        None => 4,
    };
    let margin = match options.margin {
        Some(m) => m,
        None => 2,
    };
    let fg: &str = match &options.fg_color {
        Some(c) => c.as_str(),
        None => "#000000",
    };
    let bg: &str = match &options.bg_color {
        Some(c) => c.as_str(),
        None => "#ffffff",
    };
    render_qr_svg(data, size * 10, margin > 0, fg, bg)
}

/// The characters of base64, by value.
pub const BASE64_CHARS: &'static str =
    "ABCDEFGHIJKLMNOPQRSTUVWXYZabcdefghijklmnopqrstuvwxyz0123456789+/";

pub open spec fn base64_digit(n: int) -> char {
    BASE64_CHARS@[n]
}

/// Base64 of one group of `n` bytes (1 to 3), the missing bytes read as 0 and
/// the digits they alone determine written as '='.
pub open spec fn base64_group(b0: u8, b1: u8, b2: u8, n: int) -> Seq<char> {
    seq![
        base64_digit(b0 as int / 4),
        base64_digit((b0 as int % 4) * 16 + b1 as int / 16),
        if n > 1 {
            base64_digit((b1 as int % 16) * 4 + b2 as int / 64)
        } else {
            '='
        },
        if n > 2 {
            base64_digit(b2 as int % 64)
        } else {
            '='
        },
    ]
}

/// Padded base64 of a byte sequence.
pub open spec fn base64(b: Seq<u8>) -> Seq<char>
    decreases b.len(),
{
    if b.len() == 0 {
        Seq::empty()
    } else if b.len() < 3 {
        base64_group(
            b[0],
            if b.len() > 1 {
                b[1]
            } else {
                0
            },
            0,
            b.len() as int,
        )
    } else {
        base64_group(b[0], b[1], b[2], 3) + base64(b.subrange(3, b.len() as int))
    }
}

fn push_digit(out: &mut String, n: u8)
    requires
        n < 64,
    ensures
        final(out)@ == old(out)@.push(base64_digit(n as int)),
{
    proof {
        reveal_strlit("ABCDEFGHIJKLMNOPQRSTUVWXYZabcdefghijklmnopqrstuvwxyz0123456789+/");
    }
    let k = n as usize;
    let piece = BASE64_CHARS.substring_char(k, k + 1);
    assert(piece@ =~= seq![base64_digit(n as int)]);
    out.append(piece);
}

fn push_pad(out: &mut String)
    ensures
        final(out)@ == old(out)@.push('='),
{
    proof {
        reveal_strlit("=");
    }
    out.append("=");
}

/// The UTF-8 bytes of `input` in padded base64.
pub fn base64_encode(input: &str) -> (r: String)
    ensures
        r@ == base64(input.spec_bytes()),
{
    let bytes = input.as_bytes();
    let ghost b = bytes@;
    let mut out = String::new();
    let mut i: usize = 0;
    assert(b.subrange(0, b.len() as int) =~= b);
    assert(out@ + base64(b) =~= base64(b));
    while i < bytes.len()
        invariant
            b == bytes@,
            i <= b.len(),
            out@ + base64(b.subrange(i as int, b.len() as int)) == base64(b),
        decreases b.len() - i,
    {
        let ghost rest = b.subrange(i as int, b.len() as int);
        let left = bytes.len() - i;
        let b0 = bytes[i];
        let b1: u8 = if left > 1 {
            bytes[i + 1]
        } else {
            0
        };
        let b2: u8 = if left > 2 {
            bytes[i + 2]
        } else {
            0
        };
        let ghost before = out@;
        push_digit(&mut out, b0 / 4);
        push_digit(&mut out, (b0 % 4) * 16 + b1 / 16);
        if left > 1 {
            push_digit(&mut out, (b1 % 16) * 4 + b2 / 64);
        } else {
            push_pad(&mut out);
        }
        if left > 2 {
            push_digit(&mut out, b2 % 64);
        } else {
            push_pad(&mut out);
        }
        let n: usize = if left > 3 {
            3
        } else {
            left
        };
        proof {
            let g = base64_group(b0, b1, b2, n as int);
            assert(out@ =~= before + g);
            if left >= 3 {
                assert(rest.subrange(3, rest.len() as int) =~= b.subrange(
                    i as int + 3,
                    b.len() as int,
                ));
                assert(base64(rest) == g + base64(rest.subrange(3, rest.len() as int)));
                assert(out@ + base64(b.subrange(i + n, b.len() as int)) =~= before + base64(rest));
            } else {
                assert(base64(rest) == g);
                assert(b.subrange(i + n, b.len() as int) =~= Seq::<u8>::empty());
                assert(out@ + base64(b.subrange(i + n, b.len() as int)) =~= before + base64(rest));
            }
        }
        i = i + n;
    }
    assert(b.subrange(i as int, b.len() as int) =~= Seq::<u8>::empty());
    assert(out@ + Seq::<char>::empty() =~= out@);
    out
}

/// The prefix of an SVG data URL holding base64.
pub open spec fn svg_data_url_prefix() -> Seq<char> {
    "data:image/svg+xml;base64,"@
}

/// The QR code of `data` as an SVG data URL, or the reason it cannot be made.
pub fn generate_qr_data_url(data: &str, options: &QrOptions) -> (r: Result<String, String>)
    requires
        qr_options_in_range(*options),
    ensures
        match r {
            Ok(url) => qr_svg_for(data@, *options) matches Some(svg) && url@
                == svg_data_url_prefix() + base64(encode_utf8(svg)),
            Err(_) => qr_svg_for(data@, *options) is None,
        },
{
    let svg = match generate_qr_svg(data, options) {
        Ok(svg) => svg,
        Err(e) => {
            return Err(e);
        },
    };
    let encoded = base64_encode(svg.as_str());
    let mut url = String::from_str("data:image/svg+xml;base64,");
    url.append(encoded.as_str());
    Ok(url)
}

} // verus!
