//! The audio server's status report, parsed into sink records.
//!
//! The report is free-form tree-drawn text. Inside its sink section each
//! useful line reads roughly `<tree-drawing> [*] <id>. <name> [vol: <level>]`;
//! a `*` anywhere marks the default sink. Lines that carry no id are skipped,
//! never an error.

use vstd::prelude::*;
use crate::text::{find_digit, find_char, find_seq, contains_seq, trim, parse_u32_digits,
    find_digit_range, find_char_range, find_seq_range, trim_range, parse_u32_range,
    lemma_find_char_bounds};
use crate::volume::{Volume, parse_volume_spec, parse_volume_range};

verus! {

/// One audio output device, in the order the report lists it.
#[derive(Clone, Debug)]
pub struct AudioSink {
    pub id: u32,
    pub name: String,
    /// Not derivable from the status report; always empty.
    pub description: String,
    pub volume: Option<Volume>,
    pub is_default: bool,
}

/// The mathematical image of one sink record.
pub struct AudioSinkV {
    pub id: u32,
    pub name: Seq<char>,
    pub description: Seq<char>,
    pub volume: Option<Volume>,
    pub is_default: bool,
}

impl View for AudioSink {
    type V = AudioSinkV;

    open spec fn view(&self) -> AudioSinkV {
        AudioSinkV {
            id: self.id,
            name: self.name@,
            description: self.description@,
            volume: self.volume,
            is_default: self.is_default,
        }
    }
}

/// The token that introduces a volume reading.
pub open spec fn vol_marker() -> Seq<char> {
    seq!['[', 'v', 'o', 'l', ':']
}

/// Split the text after the id into the sink's name and its volume: at the
/// volume marker when one stands there, with the level read up to the next
/// `]`; with no marker the whole text is the name.
pub open spec fn split_name_volume(rest: Seq<char>) -> (Seq<char>, Option<Volume>) {
    match find_seq(rest, vol_marker(), 0) {
        None => (rest, None),
        Some(v) => {
            let vol_str = rest.subrange(v + vol_marker().len() as int, rest.len() as int);
            let vol_end = match find_char(vol_str, ']', 0) {
                Some(e) => e,
                None => vol_str.len() as int,
            };
            (trim(rest.subrange(0, v)), parse_volume_spec(trim(vol_str.subrange(0, vol_end))))
        },
    }
}

/// What one report line describes. The line is a sink iff a digit occurs and
/// a `.` follows the digits: the text between, trimmed, is the decimal id;
/// what follows the `.` carries the name and the volume; a `*` anywhere
/// marks the default sink. Any other line describes no sink.
pub open spec fn parse_sink_line_spec(line: Seq<char>) -> Option<AudioSinkV> {
    match find_digit(line, 0) {
        None => None,
        Some(ds) => {
            let cleaned = line.subrange(ds, line.len() as int);
            match find_char(cleaned, '.', 0) {
                None => None,
                Some(dot) => match parse_u32_digits(trim(cleaned.subrange(0, dot))) {
                    None => None,
                    Some(id) => {
                        let nv = split_name_volume(
                            trim(cleaned.subrange(dot + 1, cleaned.len() as int)),
                        );
                        Some(
                            AudioSinkV {
                                id,
                                name: nv.0,
                                description: Seq::empty(),
                                volume: nv.1,
                                is_default: find_char(line, '*', 0) is Some,
                            },
                        )
                    },
                },
            }
        },
    }
}

/// The volume marker as runtime characters.
fn vol_marker_vec() -> (v: Vec<char>)
    ensures
        v@ == vol_marker(),
{
    let v = vec!['[', 'v', 'o', 'l', ':'];
    assert(v@ =~= vol_marker());
    v
}

/// Parse the slice of `s` between `from` and `to` as one sink line.
fn parse_sink_line_range(s: &str, from: usize, to: usize) -> (r: Option<AudioSink>)
    requires
        from <= to <= s@.len(),
    ensures
        ({
            let line = s@.subrange(from as int, to as int);
            match r {
                Some(sk) => parse_sink_line_spec(line) == Some(sk@),
                None => parse_sink_line_spec(line) is None,
            }
        }),
{
    let ghost line = s@.subrange(from as int, to as int);
    let is_default = match find_char_range(s, '*', from, to) {
        Some(_) => true,
        None => false,
    };
    let ds = match find_digit_range(s, from, to) {
        Some(d) => d,
        None => {
            return None;
        },
    };
    let ghost cleaned = line.subrange(ds - from, line.len() as int);
    proof {
        assert(cleaned =~= s@.subrange(ds as int, to as int));
    }
    let dot = match find_char_range(s, '.', ds, to) {
        Some(d) => d,
        None => {
            return None;
        },
    };
    proof {
        assert(cleaned.subrange(0, dot - ds) =~= s@.subrange(ds as int, dot as int));
    }
    let (ia, ib) = trim_range(s, ds, dot);
    let id = match parse_u32_range(s, ia, ib) {
        Some(v) => v,
        None => {
            return None;
        },
    };
    proof {
        assert(cleaned.subrange(dot - ds + 1, cleaned.len() as int) =~= s@.subrange(
            dot + 1,
            to as int,
        ));
    }
    let (ra, rb) = trim_range(s, dot + 1, to);
    let ghost rest = s@.subrange(ra as int, rb as int);
    let pat = vol_marker_vec();
    assert(vol_marker().len() == 5);
    let (na, nb, volume) = match find_seq_range(s, &pat, ra, rb) {
        None => (ra, rb, None),
        Some(v) => {
            let ghost vol_str = rest.subrange(v - ra + 5, rest.len() as int);
            proof {
                assert(vol_str =~= s@.subrange(v + 5, rb as int));
            }
            let vend = match find_char_range(s, ']', v + 5, rb) {
                Some(e) => {
                    proof {
                        assert(vol_str.subrange(0, e - (v + 5)) =~= s@.subrange(
                            v + 5,
                            e as int,
                        ));
                    }
                    e
                },
                None => {
                    proof {
                        assert(vol_str.subrange(0, vol_str.len() as int) =~= s@.subrange(
                            v + 5,
                            rb as int,
                        ));
                    }
                    rb
                },
            };
            let (ta, tb) = trim_range(s, v + 5, vend);
            let vol = parse_volume_range(s, ta, tb);
            proof {
                assert(rest.subrange(0, v - ra) =~= s@.subrange(ra as int, v as int));
            }
            let (xa, xb) = trim_range(s, ra, v);
            (xa, xb, vol)
        },
    };
    let name = String::from_str(s.substring_char(na, nb));
    let sink = AudioSink { id, name, description: String::new(), volume, is_default };
    Some(sink)
}

/// The section header that opens the sink listing.
pub open spec fn sinks_header() -> Seq<char> {
    seq!['S', 'i', 'n', 'k', 's', ':']
}

/// The header of the source listing, which ends the sink section.
pub open spec fn sources_header() -> Seq<char> {
    seq!['S', 'o', 'u', 'r', 'c', 'e', 's', ':']
}

/// The header of the stream listing, which ends the sink section.
pub open spec fn streams_header() -> Seq<char> {
    seq!['S', 't', 'r', 'e', 'a', 'm', 's', ':']
}

/// The header of the filter listing, which ends the sink section.
pub open spec fn filters_header() -> Seq<char> {
    seq!['F', 'i', 'l', 't', 'e', 'r', 's', ':']
}

/// One line as `str::lines` hands it out: a `\r` left before the splitting
/// `\n` is dropped.
pub open spec fn strip_cr(l: Seq<char>) -> Seq<char> {
    if l.len() > 0 && l.last() == '\r' {
        l.drop_last()
    } else {
        l
    }
}

/// The lines of `text` from position `i` on, split as `str::lines` splits
/// them: at each `\n`, dropping a `\r` just before it; a trailing `\n` opens
/// no further line.
pub open spec fn lines_from(text: Seq<char>, i: int) -> Seq<Seq<char>>
    decreases text.len() - i,
    via lines_from_decreases
{
    if i < 0 || i >= text.len() {
        Seq::empty()
    } else {
        match find_char(text.subrange(i, text.len() as int), '\n', 0) {
            Some(j) => seq![strip_cr(text.subrange(i, i + j))] + lines_from(text, i + j + 1),
            None => seq![text.subrange(i, text.len() as int)],
        }
    }
}

#[via_fn]
proof fn lines_from_decreases(text: Seq<char>, i: int) {
    if 0 <= i && i < text.len() {
        lemma_find_char_bounds(text.subrange(i, text.len() as int), '\n', 0);
    }
}

/// The sinks that the report lines describe. A line naming the sink header
/// opens the section; inside it a line naming the source, stream or filter
/// header ends the scan; every other line inside the section contributes a
/// record iff it parses as a sink, in order.
pub open spec fn scan_lines(ls: Seq<Seq<char>>, in_sinks: bool) -> Seq<AudioSinkV>
    decreases ls.len(),
{
    if ls.len() == 0 {
        Seq::empty()
    } else {
        let l = ls[0];
        let rest = ls.drop_first();
        if contains_seq(l, sinks_header()) {
            scan_lines(rest, true)
        } else if in_sinks && (contains_seq(l, sources_header()) || contains_seq(
            l,
            streams_header(),
        ) || contains_seq(l, filters_header())) {
            Seq::empty()
        } else if in_sinks {
            match parse_sink_line_spec(l) {
                Some(sk) => seq![sk] + scan_lines(rest, true),
                None => scan_lines(rest, true),
            }
        } else {
            scan_lines(rest, false)
        }
    }
}

/// Everything the whole report says about sinks.
pub open spec fn parse_sinks_spec(text: Seq<char>) -> Seq<AudioSinkV> {
    scan_lines(lines_from(text, 0), false)
}

/// The views of a list of sink records.
pub open spec fn sinks_view(v: Seq<AudioSink>) -> Seq<AudioSinkV> {
    v.map_values(|sk: AudioSink| sk@)
}

/// The sink header as runtime characters.
fn sinks_header_vec() -> (v: Vec<char>)
    ensures
        v@ == sinks_header(),
{
    let v = vec!['S', 'i', 'n', 'k', 's', ':'];
    assert(v@ =~= sinks_header());
    v
}

/// The source header as runtime characters.
fn sources_header_vec() -> (v: Vec<char>)
    ensures
        v@ == sources_header(),
{
    let v = vec!['S', 'o', 'u', 'r', 'c', 'e', 's', ':'];
    assert(v@ =~= sources_header());
    v
}

/// The stream header as runtime characters.
fn streams_header_vec() -> (v: Vec<char>)
    ensures
        v@ == streams_header(),
{
    let v = vec!['S', 't', 'r', 'e', 'a', 'm', 's', ':'];
    assert(v@ =~= streams_header());
    v
}

/// The filter header as runtime characters.
fn filters_header_vec() -> (v: Vec<char>)
    ensures
        v@ == filters_header(),
{
    let v = vec!['F', 'i', 'l', 't', 'e', 'r', 's', ':'];
    assert(v@ =~= filters_header());
    v
}

/// Whether `pat` occurs in the slice of `s` between `from` and `to`.
fn range_contains(s: &str, pat: &Vec<char>, from: usize, to: usize) -> (r: bool)
    requires
        from <= to <= s@.len(),
    ensures
        r == contains_seq(s@.subrange(from as int, to as int), pat@),
{
    match find_seq_range(s, pat, from, to) {
        Some(_) => true,
        None => false,
    }
}

/// Parse the whole status report: scan for the sink section and collect the
/// sink records it lists, in input order.
pub fn parse_sinks(text: &str) -> (r: Vec<AudioSink>)
    ensures
        sinks_view(r@) == parse_sinks_spec(text@),
{
    let n = text.unicode_len();
    let pat_sinks = sinks_header_vec();
    let pat_sources = sources_header_vec();
    let pat_streams = streams_header_vec();
    let pat_filters = filters_header_vec();
    let mut out: Vec<AudioSink> = Vec::new();
    let mut pos: usize = 0;
    let mut in_sinks = false;
    let mut done = false;
    while pos < n && !done
        invariant
            pos <= n,
            n == text@.len(),
            pat_sinks@ == sinks_header(),
            pat_sources@ == sources_header(),
            pat_streams@ == streams_header(),
            pat_filters@ == filters_header(),
            parse_sinks_spec(text@) == sinks_view(out@) + (if done {
                Seq::<AudioSinkV>::empty()
            } else {
                scan_lines(lines_from(text@, pos as int), in_sinks)
            }),
        decreases n - pos, (if done {
            0int
        } else {
            1int
        }),
    {
        let ghost rem_lines = lines_from(text@, pos as int);
        let (line_end, next_pos) = match find_char_range(text, '\n', pos, n) {
            Some(p) => {
                let le = if p > pos && text.get_char(p - 1) == '\r' {
                    p - 1
                } else {
                    p
                };
                proof {
                    let raw = text@.subrange(pos as int, p as int);
                    if p > pos && text@[p - 1] == '\r' {
                        assert(raw.last() == '\r');
                        assert(raw.drop_last() =~= text@.subrange(pos as int, p - 1));
                    }
                    assert(strip_cr(raw) == text@.subrange(pos as int, le as int));
                }
                (le, p + 1)
            },
            None => (n, n),
        };
        let ghost line = text@.subrange(pos as int, line_end as int);
        let ghost tail_lines = lines_from(text@, next_pos as int);
        proof {
            assert(rem_lines == seq![line] + tail_lines);
            assert(rem_lines[0] == line);
            assert(rem_lines.drop_first() =~= tail_lines);
        }
        let ghost old_flag = in_sinks;
        let ghost old_out = out@;
        if range_contains(text, &pat_sinks, pos, line_end) {
            in_sinks = true;
        } else if in_sinks && (range_contains(text, &pat_sources, pos, line_end)
            || range_contains(text, &pat_streams, pos, line_end) || range_contains(
            text,
            &pat_filters,
            pos,
            line_end,
        )) {
            done = true;
        } else if in_sinks {
            match parse_sink_line_range(text, pos, line_end) {
                Some(sk) => {
                    proof {
                        assert(scan_lines(rem_lines, old_flag) == seq![sk@] + scan_lines(
                            tail_lines,
                            true,
                        ));
                    }
                    out.push(sk);
                    proof {
                        assert(sinks_view(out@) =~= sinks_view(old_out) + seq![sk@]);
                        assert((sinks_view(old_out) + seq![sk@]) + scan_lines(tail_lines, true)
                            =~= sinks_view(old_out) + (seq![sk@] + scan_lines(tail_lines, true)));
                    }
                },
                None => {},
            }
        }
        if !done {
            pos = next_pos;
        }
    }
    proof {
        if !done {
            assert(lines_from(text@, pos as int) =~= Seq::empty());
            assert(scan_lines(lines_from(text@, pos as int), in_sinks) =~= Seq::empty());
        }
        assert(parse_sinks_spec(text@) =~= sinks_view(out@));
    }
    out
}

/// A sink-section line with no digit, or with no `.` after its first digit,
/// describes no sink and does not end the scan: the remaining lines yield
/// exactly what they would alone. (A line naming a section header is ruled
/// out: headers steer the scan by design.)
pub proof fn lemma_malformed_line_skipped(l: Seq<char>, rest: Seq<Seq<char>>)
    requires
        find_digit(l, 0) is None || find_char(
            l.subrange(find_digit(l, 0).unwrap(), l.len() as int),
            '.',
            0,
        ) is None,
        !contains_seq(l, sinks_header()),
        !contains_seq(l, sources_header()),
        !contains_seq(l, streams_header()),
        !contains_seq(l, filters_header()),
    ensures
        parse_sink_line_spec(l) is None,
        scan_lines(seq![l] + rest, true) == scan_lines(rest, true),
{
    assert((seq![l] + rest).drop_first() =~= rest);
}

/// Parse one line of the status report as a sink record.
pub fn parse_sink_line(line: &str) -> (r: Option<AudioSink>)
    ensures
        match r {
            Some(sk) => parse_sink_line_spec(line@) == Some(sk@),
            None => parse_sink_line_spec(line@) is None,
        },
{
    let n = line.unicode_len();
    let r = parse_sink_line_range(line, 0, n);
    proof {
        assert(line@.subrange(0, n as int) =~= line@);
    }
    r
}

} // verus!
