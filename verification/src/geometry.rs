//! Where the output lies on the desktop.
use vstd::prelude::*;

use crate::config::{Config, ConfigView};
use crate::json::{
    as_integer, get_member, json, json_member, json_of_bytes, parse_json_bytes, Json,
};

verus! {

/// The logical position and size of an output.
#[derive(Clone, Copy, Debug, PartialEq, Eq, Structural)]
pub struct OutputGeometry {
    pub x: i32,
    pub y: i32,
    pub width: u32,
    pub height: u32,
}

/// What is taken for granted where niri does not say: the size from the settings, at the origin.
pub open spec fn assumed_geometry(c: ConfigView) -> OutputGeometry {
    OutputGeometry { x: 0, y: 0, width: c.width, height: c.height }
}

/// The member `name` where it is an integer from `low` to `high`, else `otherwise`.
pub open spec fn member_or(
    logical: Json,
    name: Seq<char>,
    low: int,
    high: int,
    otherwise: int,
) -> int {
    match json_member(logical, name) {
        Some(Json::Integer(n)) => if low <= n <= high {
            n
        } else {
            otherwise
        },
        _ => otherwise,
    }
}

/// The geometry that the member `logical` of an output describes.
pub open spec fn logical_geometry(logical: Json, c: ConfigView) -> OutputGeometry {
    OutputGeometry {
        x: member_or(logical, "x"@, i32::MIN as int, i32::MAX as int, 0) as i32,
        y: member_or(logical, "y"@, i32::MIN as int, i32::MAX as int, 0) as i32,
        width: member_or(logical, "width"@, 0, u32::MAX as int, c.width as int) as u32,
        height: member_or(logical, "height"@, 0, u32::MAX as int, c.height as int) as u32,
    }
}

/// The geometry of the output of `c` in a list of outputs.
pub open spec fn listed_geometry(outputs: Json, c: ConfigView) -> OutputGeometry {
    match json_member(outputs, c.output) {
        Some(output) => match json_member(output, "logical"@) {
            Some(logical) => logical_geometry(logical, c),
            None => assumed_geometry(c),
        },
        None => assumed_geometry(c),
    }
}

/// The geometry where niri could not be asked.
pub fn fallback_geometry(config: &Config) -> (geometry: OutputGeometry)
    ensures
        geometry == assumed_geometry(config@),
{
    OutputGeometry { x: 0, y: 0, width: config.width, height: config.height }
}

/// The integer member `name`, where it lies from `low` to `high`.
fn bounded_member(logical: &serde_json::Value, name: &str, low: i64, high: i64) -> (number: Option<
    i64,
>)
    ensures
        forall|otherwise: int|
            #[trigger] member_or(json(*logical), name@, low as int, high as int, otherwise) == (
            match number {
                Some(n) => n as int,
                None => otherwise,
            }),
        number matches Some(n) ==> low <= n <= high,
{
    match get_member(logical, name) {
        Some(member) => match as_integer(member) {
            Some(n) => if low <= n && n <= high {
                Some(n)
            } else {
                None
            },
            None => None,
        },
        None => None,
    }
}

/// Finds the output of `config` in a list of outputs.
pub fn read_geometry(outputs: &serde_json::Value, config: &Config) -> (geometry: OutputGeometry)
    ensures
        geometry == listed_geometry(json(*outputs), config@),
{
    let output = match get_member(outputs, config.output.as_str()) {
        Some(output) => output,
        None => return fallback_geometry(config),
    };
    let logical = match get_member(output, "logical") {
        Some(logical) => logical,
        None => return fallback_geometry(config),
    };
    let x: i32 = match bounded_member(logical, "x", i32::MIN as i64, i32::MAX as i64) {
        Some(n) => n as i32,
        None => 0,
    };
    let y: i32 = match bounded_member(logical, "y", i32::MIN as i64, i32::MAX as i64) {
        Some(n) => n as i32,
        None => 0,
    };
    let width: u32 = match bounded_member(logical, "width", 0, u32::MAX as i64) {
        Some(n) => n as u32,
        None => config.width,
    };
    let height: u32 = match bounded_member(logical, "height", 0, u32::MAX as i64) {
        Some(n) => n as u32,
        None => config.height,
    };
    proof {
        let l = json(*logical);
        let c = config@;
        assert(member_or(l, "x"@, i32::MIN as int, i32::MAX as int, 0) == x);
        assert(member_or(l, "y"@, i32::MIN as int, i32::MAX as int, 0) == y);
        assert(member_or(l, "width"@, 0, u32::MAX as int, c.width as int) == width);
        assert(member_or(l, "height"@, 0, u32::MAX as int, c.height as int) == height);
    }
    OutputGeometry { x, y, width, height }
}

/// Reads the geometry of the output of `config` from what niri printed about its outputs.
pub fn query_output_geometry(listing: &[u8], config: &Config) -> (geometry: OutputGeometry)
    ensures
        geometry == match json_of_bytes(listing@) {
            Some(outputs) => listed_geometry(outputs, config@),
            None => assumed_geometry(config@),
        },
{
    match parse_json_bytes(listing) {
        Some(outputs) => read_geometry(&outputs, config),
        None => fallback_geometry(config),
    }
}

/// An output that is switched off, for which niri gives no logical size, is taken to have the size
/// from the settings.
pub proof fn law_inactive_output_has_the_assumed_geometry(outputs: Json, c: ConfigView)
    requires
        json_member(outputs, c.output) matches Some(output) ==> (json_member(output, "logical"@)
            matches Some(logical) ==> logical !is Object),
    ensures
        listed_geometry(outputs, c) == assumed_geometry(c),
{
}

/// `value` is the member `name` of `members` where that is an integer from `low` to `high`, and else
/// `otherwise`.
pub open spec fn is_member_or(
    members: Map<Seq<char>, Json>,
    name: Seq<char>,
    low: int,
    high: int,
    otherwise: int,
    value: int,
) -> bool {
    if members.contains_key(name) && members[name] is Integer && low <= members[name]->Integer_0
        <= high {
        value == members[name]->Integer_0
    } else {
        value == otherwise
    }
}

/// An output lies where niri says: among the outputs that it lists, the one of the settings has a
/// member `logical` that holds the position and the size. Each number that is missing there or does
/// not fit is zero for the position, and comes from the settings for the size.
pub proof fn law_outputs_lie_where_niri_says(
    listed: Map<Seq<char>, Json>,
    output: Map<Seq<char>, Json>,
    logical: Map<Seq<char>, Json>,
    c: ConfigView,
)
    requires
        listed.contains_key(c.output),
        listed[c.output] == Json::Object(output),
        output.contains_key("logical"@),
        output["logical"@] == Json::Object(logical),
    ensures
        ({
            let g = listed_geometry(Json::Object(listed), c);
            &&& is_member_or(logical, "x"@, -0x8000_0000, 0x7fff_ffff, 0, g.x as int)
            &&& is_member_or(logical, "y"@, -0x8000_0000, 0x7fff_ffff, 0, g.y as int)
            &&& is_member_or(logical, "width"@, 0, 0xffff_ffff, c.width as int, g.width as int)
            &&& is_member_or(logical, "height"@, 0, 0xffff_ffff, c.height as int, g.height as int)
        }),
{
}

/// An output that niri does not list is taken to lie at the origin and to have the size from the
/// settings.
pub proof fn law_unlisted_outputs_lie_at_the_origin(outputs: Json, c: ConfigView)
    requires
        outputs is Object ==> !outputs->Object_0.contains_key(c.output),
    ensures
        ({
            let g = listed_geometry(outputs, c);
            g.x == 0 && g.y == 0 && g.width == c.width && g.height == c.height
        }),
        assumed_geometry(c) == listed_geometry(outputs, c),
{
}

} // verus!
