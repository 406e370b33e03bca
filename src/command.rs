//! Reading the command line into one of the tool's operations.

use vstd::prelude::*;
use crate::decimal::{NumberError, is_digit, lemma_non_numeric_rejected, parse_u32, parse_u8, unsigned_of};
use image::DynamicImage;
use crate::picture::encoded_of;
use crate::format::{
    DEFAULT_JPEG_QUALITY, OutputFormat, compress_format, compress_format_spec, extension_of, format_for_extension,
    format_named_spec, get_format, lower_of, parse_format, same_text,
};

verus! {

/// The operation that the first argument names.
#[derive(Clone, Copy, Debug, PartialEq, Eq)]
pub enum Subcommand {
    Resize,
    Dpi,
    Convert,
    Compress,
    Unknown,
}

pub open spec fn subcommand_spec(name: Seq<char>) -> Subcommand {
    if name == "resize"@ {
        Subcommand::Resize
    } else if name == "dpi"@ {
        Subcommand::Dpi
    } else if name == "convert"@ {
        Subcommand::Convert
    } else if name == "compress"@ {
        Subcommand::Compress
    } else {
        Subcommand::Unknown
    }
}

/// Selects the operation by its exact, case-sensitive name.
pub fn subcommand_of(name: &str) -> (r: Subcommand)
    ensures
        r == subcommand_spec(name@),
{
    if same_text(name, "resize") {
        Subcommand::Resize
    } else if same_text(name, "dpi") {
        Subcommand::Dpi
    } else if same_text(name, "convert") {
        Subcommand::Convert
    } else if same_text(name, "compress") {
        Subcommand::Compress
    } else {
        Subcommand::Unknown
    }
}

/// What a command line asks for.
#[derive(Clone, Debug)]
pub enum Command {
    /// Print the full usage text.
    Help,
    /// Print the usage line of one operation, whose arguments are missing.
    Usage(Subcommand),
    /// Resample `input` to exactly `width` by `height` pixels into `output`.
    Resize { input: String, output: String, width: u32, height: u32 },
    /// Re-encode `input` into `output` in `format`; `dpi` is reported only.
    Dpi { input: String, output: String, dpi: u32, format: OutputFormat },
    /// Re-encode `input` into `output` in `target`, the format named by
    /// `format_name` (lower-cased); `None` where that name is not supported.
    Convert {
        input: String,
        output: String,
        format_name: String,
        target: Option<OutputFormat>,
    },
    /// Re-encode `input` into `output` in `format`, which carries `quality`
    /// where the output is JPEG.
    Compress { input: String, output: String, quality: u8, format: OutputFormat },
}

/// The characters of each argument.
pub open spec fn texts(args: Seq<String>) -> Seq<Seq<char>> {
    args.map_values(|s: String| s@)
}

/// The number of arguments (the program name and the operation's name
/// included) each operation needs.
pub open spec fn needed(sub: Subcommand) -> int {
    match sub {
        Subcommand::Resize => 6,
        _ => 5,
    }
}

/// Whether `r` is what the command line `a` asks for. Without an operation
/// name, or with an unknown one, it asks for help; with too few arguments for
/// the operation, for its usage line. Numbers are read with `unsigned_of`,
/// the width before the height; the first that fails is the error.
pub open spec fn parsed_command(a: Seq<Seq<char>>, r: Result<Command, NumberError>) -> bool {
    if a.len() < 2 {
        r matches Ok(Command::Help)
    } else {
        let sub = subcommand_spec(a[1]);
        if sub == Subcommand::Unknown {
            r matches Ok(Command::Help)
        } else if a.len() < needed(sub) {
            r matches Ok(Command::Usage(s)) && s == sub
        } else {
            match sub {
                Subcommand::Resize => match (
                    unsigned_of(a[4], u32::MAX as nat),
                    unsigned_of(a[5], u32::MAX as nat),
                ) {
                    (Err(e), _) => r == Err::<Command, NumberError>(e),
                    (Ok(_), Err(e)) => r == Err::<Command, NumberError>(e),
                    (Ok(w), Ok(h)) => r matches Ok(Command::Resize { input, output, width, height })
                        && input@ == a[2] && output@ == a[3] && width == w && height == h,
                },
                Subcommand::Dpi => match unsigned_of(a[4], u32::MAX as nat) {
                    Err(e) => r == Err::<Command, NumberError>(e),
                    Ok(d) => r matches Ok(Command::Dpi { input, output, dpi, format })
                        && input@ == a[2] && output@ == a[3] && dpi == d && format
                        == format_for_extension(extension_of(a[3])),
                },
                Subcommand::Convert => r matches Ok(
                    Command::Convert { input, output, format_name, target },
                ) && input@ == a[2] && output@ == a[3] && format_name@ == lower_of(a[4]) && target
                    == format_named_spec(lower_of(a[4])),
                _ => match unsigned_of(a[4], u8::MAX as nat) {
                    Err(e) => r == Err::<Command, NumberError>(e),
                    Ok(q) => r matches Ok(Command::Compress { input, output, quality, format })
                        && input@ == a[2] && output@ == a[3] && quality == q && format
                        == compress_format_spec(extension_of(a[3]), q as u8),
                },
            }
        }
    }
}

/// Without an operation name, or with one that is not known, the command line
/// asks for the usage text and for nothing else.
pub proof fn lemma_help_without_known_operation(a: Seq<Seq<char>>, r: Result<Command, NumberError>)
    requires
        parsed_command(a, r),
        a.len() < 2 || subcommand_spec(a[1]) == Subcommand::Unknown,
    ensures
        r matches Ok(Command::Help),
{
}

/// A resize whose width holds a character other than a digit (a leading `+`
/// aside) fails with a number error.
pub proof fn lemma_resize_rejects_non_numeric_width(
    a: Seq<Seq<char>>,
    r: Result<Command, NumberError>,
    k: int,
)
    requires
        parsed_command(a, r),
        a.len() >= 6,
        subcommand_spec(a[1]) == Subcommand::Resize,
        0 <= k < a[4].len(),
        !is_digit(a[4][k]),
        !(k == 0 && a[4][k] == '+'),
    ensures
        r is Err,
{
    lemma_non_numeric_rejected(a[4], k, u32::MAX as nat);
}

/// The DPI value has no effect on what is written: two DPI command lines that
/// differ only in that value read, write and encode alike, down to the bytes.
pub proof fn lemma_dpi_value_has_no_effect(
    img: DynamicImage,
    a: Seq<Seq<char>>,
    b: Seq<Seq<char>>,
    ra: Result<Command, NumberError>,
    rb: Result<Command, NumberError>,
)
    requires
        parsed_command(a, ra),
        parsed_command(b, rb),
        a.len() == b.len(),
        a.len() >= 5,
        subcommand_spec(a[1]) == Subcommand::Dpi,
        forall|i: int| 0 <= i < a.len() && i != 4 ==> a[i] == b[i],
        ra is Ok,
        rb is Ok,
    ensures
        ra matches Ok(Command::Dpi { input: i1, output: o1, format: f1, .. }) && rb matches Ok(
            Command::Dpi { input: i2, output: o2, format: f2, .. },
        ) && i1@ == i2@ && o1@ == o2@ && f1 == f2 && encoded_of(img, f1) == encoded_of(img, f2),
{
    assert(a[1] == b[1] && a[2] == b[2] && a[3] == b[3]);
}

/// The explicit format word of a conversion is matched whatever its case, and
/// `jpg` and `jpeg` are one: such words give JPEG at the default quality, and
/// the same bytes, whatever the output's extension.
pub proof fn lemma_convert_jpeg_words_agree(
    img: DynamicImage,
    a: Seq<Seq<char>>,
    b: Seq<Seq<char>>,
    ra: Result<Command, NumberError>,
    rb: Result<Command, NumberError>,
)
    requires
        parsed_command(a, ra),
        parsed_command(b, rb),
        a.len() >= 5,
        b.len() >= 5,
        subcommand_spec(a[1]) == Subcommand::Convert,
        subcommand_spec(b[1]) == Subcommand::Convert,
        lower_of(a[4]) == "jpg"@ || lower_of(a[4]) == "jpeg"@,
        lower_of(b[4]) == "jpg"@ || lower_of(b[4]) == "jpeg"@,
    ensures
        ra matches Ok(Command::Convert { target: ta, .. }) && rb matches Ok(
            Command::Convert { target: tb, .. },
        ) && ta == Some(OutputFormat::Jpeg(DEFAULT_JPEG_QUALITY)) && ta == tb && encoded_of(
            img,
            ta->0,
        ) == encoded_of(img, tb->0),
{
}

/// Reads the command line `args` (the program name first) into a command.
pub fn parse_command(args: &Vec<String>) -> (r: Result<Command, NumberError>)
    ensures
        parsed_command(texts(args@), r),
{
    let ghost a = texts(args@);
    if args.len() < 2 {
        return Ok(Command::Help);
    }
    assert(a[1] == args@[1]@);
    let sub = subcommand_of(args[1].as_str());
    let n = args.len();
    match sub {
        Subcommand::Unknown => Ok(Command::Help),
        Subcommand::Resize => {
            if n < 6 {
                return Ok(Command::Usage(sub));
            }
            assert(a[2] == args@[2]@ && a[3] == args@[3]@ && a[4] == args@[4]@ && a[5] == args@[5]@);
            let width = match parse_u32(args[4].as_str()) {
                Ok(v) => v,
                Err(e) => return Err(e),
            };
            let height = match parse_u32(args[5].as_str()) {
                Ok(v) => v,
                Err(e) => return Err(e),
            };
            Ok(Command::Resize { input: args[2].clone(), output: args[3].clone(), width, height })
        },
        Subcommand::Dpi => {
            if n < 5 {
                return Ok(Command::Usage(sub));
            }
            assert(a[2] == args@[2]@ && a[3] == args@[3]@ && a[4] == args@[4]@);
            let dpi = match parse_u32(args[4].as_str()) {
                Ok(v) => v,
                Err(e) => return Err(e),
            };
            let format = get_format(args[3].as_str());
            Ok(Command::Dpi { input: args[2].clone(), output: args[3].clone(), dpi, format })
        },
        Subcommand::Convert => {
            if n < 5 {
                return Ok(Command::Usage(sub));
            }
            assert(a[2] == args@[2]@ && a[3] == args@[3]@ && a[4] == args@[4]@);
            let (format_name, target) = parse_format(args[4].as_str());
            Ok(
                Command::Convert {
                    input: args[2].clone(),
                    output: args[3].clone(),
                    format_name,
                    target,
                },
            )
        },
        Subcommand::Compress => {
            if n < 5 {
                return Ok(Command::Usage(sub));
            }
            assert(a[2] == args@[2]@ && a[3] == args@[3]@ && a[4] == args@[4]@);
            let quality = match parse_u8(args[4].as_str()) {
                Ok(v) => v,
                Err(e) => return Err(e),
            };
            let format = compress_format(args[3].as_str(), quality);
            Ok(Command::Compress { input: args[2].clone(), output: args[3].clone(), quality, format })
        },
    }
}

} // verus!
