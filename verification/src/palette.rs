//! Colors extracted from the palette tool's JSON report.
//!
//! The report carries a top-level `colors` object; each role under it is
//! either a bare hex string or an object of variants. The mapping kept is
//! the `dark` variant where present, else the `default` variant, else the
//! bare string; a role offering none of these is skipped.

use vstd::prelude::*;

verus! {

/// One color role and its hex value.
#[derive(Clone, Debug)]
pub struct ColorEntry {
    pub name: String,
    pub value: String,
}

/// The mathematical image of one color entry.
pub struct ColorEntryV {
    pub name: Seq<char>,
    pub value: Seq<char>,
}

impl View for ColorEntry {
    type V = ColorEntryV;

    open spec fn view(&self) -> ColorEntryV {
        ColorEntryV { name: self.name@, value: self.value@ }
    }
}

/// What the report offers for one color role, before a variant is chosen.
pub struct RawColor {
    pub name: String,
    /// The role's `dark` variant, when the report gives one.
    pub dark: Option<String>,
    /// The role's `default` variant, used when no dark value stands.
    pub fallback: Option<String>,
    /// The role's value when the report gives a bare string, no variants.
    pub flat: Option<String>,
}

/// The mathematical image of one raw color role.
pub struct RawColorV {
    pub name: Seq<char>,
    pub dark: Option<Seq<char>>,
    pub fallback: Option<Seq<char>>,
    pub flat: Option<Seq<char>>,
}

/// The view of an optional owned string.
pub open spec fn opt_str_view(o: Option<String>) -> Option<Seq<char>> {
    match o {
        Some(s) => Some(s@),
        None => None,
    }
}

impl View for RawColor {
    type V = RawColorV;

    open spec fn view(&self) -> RawColorV {
        RawColorV {
            name: self.name@,
            dark: opt_str_view(self.dark),
            fallback: opt_str_view(self.fallback),
            flat: opt_str_view(self.flat),
        }
    }
}

/// The views of a list of raw color roles.
pub open spec fn raws_view(v: Seq<RawColor>) -> Seq<RawColorV> {
    v.map_values(|c: RawColor| c@)
}

/// The views of a list of color entries.
pub open spec fn colors_view(v: Seq<ColorEntry>) -> Seq<ColorEntryV> {
    v.map_values(|c: ColorEntry| c@)
}

/// The palette tool's report, read as JSON: the roles under its `colors`
/// object in the order the parsed object hands them out, each with its
/// variant strings; nothing when the text is not such a report. A function
/// of the text alone.
pub uninterp spec fn palette_of_json(s: Seq<char>) -> Option<Seq<RawColorV>>;

/// Relies on serde_json::from_str, Value::get, Value::as_object and
/// Value::as_str: parses the report and flattens the `colors` object into
/// per-role variant strings, deterministically in the text.
#[verifier::external_body]
fn read_palette_json(s: &str) -> (r: Option<Vec<RawColor>>)
    ensures
        (r is Some) == (palette_of_json(s@) is Some),
        r matches Some(v) ==> palette_of_json(s@) == Some(raws_view(v@)),
{
    let parsed: serde_json::Value = serde_json::from_str(s).ok()?;
    let obj = parsed.get("colors")?.as_object()?;
    let mut out = Vec::new();
    for (key, val) in obj {
        out.push(RawColor {
            name: key.clone(),
            dark: val.get("dark").and_then(|x| x.as_str()).map(|x| x.to_string()),
            fallback: val.get("default").and_then(|x| x.as_str()).map(|x| x.to_string()),
            flat: val.as_str().map(|x| x.to_string()),
        });
    }
    Some(out)
}

/// The value one role contributes: dark preferred, then default, then the
/// bare string; nothing when the role offers none.
pub open spec fn pick_color(c: RawColorV) -> Option<Seq<char>> {
    if c.dark is Some {
        Some(c.dark.unwrap())
    } else if c.fallback is Some {
        Some(c.fallback.unwrap())
    } else if c.flat is Some {
        Some(c.flat.unwrap())
    } else {
        None
    }
}

/// The chosen colors of the roles from position `i` on, in order, roles
/// without a value skipped.
pub open spec fn select_from(raws: Seq<RawColorV>, i: int) -> Seq<ColorEntryV>
    decreases raws.len() - i,
{
    if i < 0 || i >= raws.len() {
        Seq::empty()
    } else {
        (match pick_color(raws[i]) {
            Some(val) => seq![ColorEntryV { name: raws[i].name, value: val }],
            None => Seq::empty(),
        }) + select_from(raws, i + 1)
    }
}

/// The flat role-to-hex mapping a raw palette yields.
pub open spec fn select_spec(raws: Seq<RawColorV>) -> Seq<ColorEntryV> {
    select_from(raws, 0)
}

/// Choose each role's value: the dark variant, else the default one, else
/// the bare string; roles with none are dropped, order kept.
pub fn select_colors(raws: &Vec<RawColor>) -> (r: Vec<ColorEntry>)
    ensures
        colors_view(r@) == select_spec(raws_view(raws@)),
{
    let ghost all = raws_view(raws@);
    let mut out: Vec<ColorEntry> = Vec::new();
    let mut i: usize = 0;
    while i < raws.len()
        invariant
            i <= raws@.len(),
            all == raws_view(raws@),
            select_from(all, 0) == colors_view(out@) + select_from(all, i as int),
        decreases raws@.len() - i,
    {
        let ghost old_out = out@;
        let c = &raws[i];
        let picked: Option<&String> = match &c.dark {
            Some(d) => Some(d),
            None => match &c.fallback {
                Some(d) => Some(d),
                None => match &c.flat {
                    Some(d) => Some(d),
                    None => None,
                },
            },
        };
        match picked {
            Some(val) => {
                let entry = ColorEntry { name: c.name.clone(), value: val.clone() };
                assert(entry@ == (ColorEntryV { name: all[i as int].name, value: pick_color(
                    all[i as int],
                ).unwrap() }));
                out.push(entry);
                proof {
                    assert(colors_view(out@) =~= colors_view(old_out) + seq![entry@]);
                    assert((colors_view(old_out) + seq![entry@]) + select_from(all, i + 1)
                        =~= colors_view(old_out) + (seq![entry@] + select_from(all, i + 1)));
                }
            },
            None => {
                assert(pick_color(all[i as int]) is None);
            },
        }
        i = i + 1;
    }
    assert(select_from(all, i as int) =~= Seq::empty());
    assert(colors_view(out@) =~= select_from(all, 0));
    out
}

/// The colors the extraction tool's report yields: the flat mapping, dark
/// preferred over default over a bare string, in the parsed object's order;
/// nothing iff the text is not a palette report.
pub fn extract_colors(json_text: &str) -> (r: Option<Vec<ColorEntry>>)
    ensures
        (r is Some) == (palette_of_json(json_text@) is Some),
        r matches Some(c) ==> palette_of_json(json_text@) matches Some(raws) && colors_view(c@)
            == select_spec(raws),
{
    match read_palette_json(json_text) {
        Some(raws) => Some(select_colors(&raws)),
        None => None,
    }
}

} // verus!
