//! Header-block model and parser for the BMS family of chart formats.
//!
//! The header of a chart file is a sequence of `#`-led directive lines
//! that carry metadata (title, artist, difficulty), global play
//! parameters (player mode, judge timing, gauge recovery) and five
//! indexed resource tables (WAV, BMP, extended BPM, STOP, EXRANK) keyed
//! by two-character base-36 identifiers. This crate decodes the raw
//! bytes, tokenizes the lines, builds the typed model, applies the
//! documented defaults, extracts the implicit subtitle, and resolves the
//! effective judge timing window. Every recoverable problem becomes an
//! ordered diagnostic; only an undetectable encoding is fatal.

pub mod chars;
pub mod decode;
pub mod diag;
pub mod fields;
pub mod header;
pub mod ident;
pub mod model;
pub mod numparse;
pub mod paths;
pub mod rank;
pub mod subtitle;
pub mod table;
pub mod tokenize;

use vstd::prelude::*;
use crate::decode::decode_spec;
use crate::decode::decode_text;
use crate::decode::split_lines;
use crate::decode::split_lines_spec;
use crate::decode::MAX_INPUT_BYTES;
use crate::diag::Diagnostic;
use crate::header::final_diags;
use crate::header::header_matches;
use crate::header::Header;
use crate::header::parse_lines;
use crate::model::run_lines;

verus! {

/// No text could be produced from the input bytes under any supported
/// encoding: the one fatal error of the parser.
#[derive(Clone, Copy, PartialEq, Eq, Structural, Debug)]
pub struct EncodingUndetectable;

/// Parses the header section of a chart file from its raw bytes: decodes
/// the text (or fails with `EncodingUndetectable`), splits it into lines,
/// folds every directive into the model, and finalizes with the
/// documented defaults. The diagnostics come back ordered beside the
/// header.
pub fn parse_header(bytes: &[u8]) -> (r: Result<(Header, Vec<Diagnostic>), EncodingUndetectable>)
    requires
        bytes@.len() <= MAX_INPUT_BYTES,
    ensures
        r is Err <==> decode_spec(bytes@) is None,
        (match r {
            Ok(p) => {
                let m = run_lines(split_lines_spec(decode_spec(bytes@)->0));
                header_matches(p.0, m) && p.1@.map_values(|d: Diagnostic| d@) == final_diags(m)
            },
            Err(e) => e == EncodingUndetectable,
        }),
{
    match decode_text(bytes) {
        None => Err(EncodingUndetectable),
        Some(text) => {
            let tchars = crate::chars::chars_of(text.as_str());
            let lines = split_lines(tchars.as_slice());
            Ok(parse_lines(&lines))
        },
    }
}

} // verus!
