//! Which Frama-C is installed, and whether it is new enough.

use crate::json::{Json, JsonView};
use crate::text::{
    cat2, cat3, cat5, chars_of, decimal, decimal_text, digit, is_digit, law_decimal_round_trip,
    lemma_decimal_digits, parse_spec, parse_u32, same, text_between,
};
use crate::wpout::{lemma_skip_digits, skip_digits};
use vstd::prelude::*;
use vstd::string::*;

verus! {

/// The oldest Frama-C that counts as supported. It is a floor rather than a target, and it has a
/// minor number because a release below it is a real one that the plug-in cannot be built for.
pub const MIN_FRAMA_C_VERSION: (u32, u32) = (32, 1);

/// The floor as it is written.
pub open spec fn floor_text() -> Seq<char> {
    decimal(32) + "."@ + decimal(1)
}

/// The floor as it is written in a message or a payload.
pub fn min_frama_c_version() -> (r: String)
    ensures
        r@ == floor_text(),
{
    let (major, minor) = MIN_FRAMA_C_VERSION;
    cat3(decimal_text(major as u64).as_str(), ".", decimal_text(minor as u64).as_str())
}

/// The number that a run of digits writes, where it fits.
pub open spec fn run_value(run: Seq<char>) -> Option<int> {
    match parse_spec(run, u32::MAX as nat) {
        Some(n) => Some(n as int),
        None => None,
    }
}

/// The depth of brackets behind a character. A bracket that closes nothing is passed over.
pub open spec fn depth_after(depth: nat, c: char) -> nat {
    if c == '(' {
        depth + 1
    } else if c == ')' && depth > 0 {
        (depth - 1) as nat
    } else {
        depth
    }
}

/// The minor number that follows a dot: the digits behind it, or zero.
pub open spec fn minor_at(s: Seq<char>, i: int) -> int {
    match run_value(s.subrange(i, skip_digits(s, i))) {
        Some(n) => n,
        None => 0,
    }
}

/// The version that a banner holds from `i` on: the first dotted number outside brackets, and else
/// the first number without a dot. A major number that does not fit makes the banner hold none,
/// rather than one that is newer than any floor.
pub open spec fn version_from(s: Seq<char>, i: int, depth: nat, undotted: Option<int>) -> Option<
    (int, int),
>
    decreases s.len() - i,
    when 0 <= i <= s.len()
    via version_from_ends
{
    if i == s.len() {
        match undotted {
            Some(major) => Some((major, 0)),
            None => None,
        }
    } else if depth == 0 && is_digit(s[i]) {
        let end = skip_digits(s, i);
        let value = run_value(s.subrange(i, end));
        if end < s.len() && s[end] == '.' {
            match value {
                Some(major) => Some((major, minor_at(s, end + 1))),
                None => None,
            }
        } else {
            version_from(
                s,
                end,
                depth,
                match undotted {
                    Some(n) => Some(n),
                    None => value,
                },
            )
        }
    } else {
        version_from(s, i + 1, depth_after(depth, s[i]), undotted)
    }
}

#[via_fn]
proof fn version_from_ends(s: Seq<char>, i: int, depth: nat, undotted: Option<int>) {
    if i < s.len() {
        lemma_skip_digits(s, i + 1);
    }
}

/// The version that a banner holds.
pub open spec fn version_of(banner: Seq<char>) -> Option<(int, int)> {
    version_from(banner, 0, 0, None)
}

fn digits_from(cs: &Vec<char>, from: usize) -> (r: usize)
    requires
        from <= cs@.len(),
    ensures
        r == skip_digits(cs@, from as int),
        from <= r <= cs@.len(),
{
    let mut i: usize = from;
    while i < cs.len() && digit(cs[i])
        invariant
            from <= i <= cs@.len(),
            skip_digits(cs@, from as int) == skip_digits(cs@, i as int),
        decreases cs@.len() - i,
    {
        i = i + 1;
    }
    i
}

/// The versions of a banner, as views.
pub open spec fn version_view(v: Option<(u32, u32)>) -> Option<(int, int)> {
    match v {
        Some((major, minor)) => Some((major as int, minor as int)),
        None => None,
    }
}

/// The number behind an optional number.
pub open spec fn opt_number(o: Option<u32>) -> Option<int> {
    match o {
        Some(n) => Some(n as int),
        None => None,
    }
}

/// Major and minor version out of a version banner, or `None` when it holds no number that is
/// shaped like a version outside brackets.
pub fn frama_c_version(banner: &str) -> (r: Option<(u32, u32)>)
    ensures
        version_view(r) == version_of(banner@),
{
    let cs = chars_of(banner);
    let mut depth: usize = 0;
    let mut undotted: Option<u32> = None;
    let mut i: usize = 0;
    while i < cs.len()
        invariant
            cs@ == banner@,
            i <= cs@.len(),
            depth <= i,
            version_of(banner@) == version_from(
                banner@,
                i as int,
                depth as nat,
                opt_number(undotted),
            ),
        decreases cs@.len() - i,
    {
        proof {
            lemma_skip_digits(banner@, i as int + 1);
        }
        if depth == 0 && digit(cs[i]) {
            let end = digits_from(&cs, i);
            let value = parse_u32(text_between(&cs, i, end).as_str());
            if end < cs.len() && cs[end] == '.' {
                let stop = digits_from(&cs, end + 1);
                let minor: u32 = match parse_u32(text_between(&cs, end + 1, stop).as_str()) {
                    Some(n) => n,
                    None => 0,
                };
                return match value {
                    Some(major) => Some((major, minor)),
                    None => None,
                };
            }
            if undotted.is_none() {
                undotted = value;
            }
            i = end;
        } else {
            let c = cs[i];
            if c == '(' {
                depth = depth + 1;
            } else if c == ')' && depth > 0 {
                depth = depth - 1;
            }
            i = i + 1;
        }
    }
    match undotted {
        Some(major) => Some((major, 0)),
        None => None,
    }
}

proof fn lemma_skip_run(s: Seq<char>, i: int, end: int)
    requires
        0 <= i <= end <= s.len(),
        forall|k: int| i <= k < end ==> is_digit(#[trigger] s[k]),
        end == s.len() || !is_digit(s[end]),
    ensures
        skip_digits(s, i) == end,
    decreases end - i,
{
    if i < end {
        lemma_skip_run(s, i + 1, end);
    }
}

/// A version that is written out is read back.
pub proof fn law_written_version_is_read_back(major: nat, minor: nat)
    requires
        major <= u32::MAX,
        minor <= u32::MAX,
    ensures
        version_of(decimal(major) + "."@ + decimal(minor)) == Some((major as int, minor as int)),
{
    reveal_strlit(".");
    let (a, b) = (decimal(major), decimal(minor));
    let s = a + "."@ + b;
    lemma_decimal_digits(major);
    lemma_decimal_digits(minor);
    law_decimal_round_trip(major, u32::MAX as nat);
    law_decimal_round_trip(minor, u32::MAX as nat);
    let n = a.len() as int;
    assert forall|k: int| 0 <= k < n implies is_digit(#[trigger] s[k]) by {
        assert(s[k] == a[k]);
    }
    assert forall|k: int| n + 1 <= k < s.len() implies is_digit(#[trigger] s[k]) by {
        assert(s[k] == b[k - n - 1]);
    }
    assert(s[n] == '.');
    lemma_skip_run(s, 0, n);
    lemma_skip_run(s, n + 1, s.len() as int);
    assert(s.subrange(0, n) =~= a);
    assert(s.subrange(n + 1, s.len() as int) =~= b);
    assert(is_digit(s[0]));
}

// ---------------------------------------------------------------------------
// Whether it is new enough
// ---------------------------------------------------------------------------

/// Whether a version is no older than the floor.
pub open spec fn new_enough(v: (int, int)) -> bool {
    v.0 > 32 || (v.0 == 32 && v.1 >= 1)
}

/// What is said of a version below the floor, after the floor.
pub const BELOW_FLOOR: &'static str =
    " this server targets: request names and payload shapes are unverified there, and the ast-utils plugin does not build against it";

/// Why a Frama-C is not supported, if it is not.
pub open spec fn unsupported_reason(probe: JsonView, version: Option<(int, int)>) -> JsonView {
    match version {
        Some(v) => if new_enough(v) {
            JsonView::Null
        } else {
            JsonView::Str(
                "Frama-C "@ + (decimal(v.0 as nat) + "."@ + decimal(v.1 as nat)) + " is below the "@
                    + floor_text() + BELOW_FLOOR@,
            )
        },
        None => if probe.text("status"@) == Some("ok"@) {
            JsonView::Str(
                "no version number in the -version banner: "@ + (match probe.text("stdout"@) {
                    Some(t) => t,
                    None => ""@,
                }),
            )
        } else {
            JsonView::Str("Frama-C did not report a version"@)
        },
    }
}

/// The version of a probe's banner.
pub open spec fn probed_version(probe: JsonView) -> Option<(int, int)> {
    match probe.text("stdout"@) {
        Some(t) => version_of(t),
        None => None,
    }
}

/// One of the numbers of an optional version.
pub open spec fn version_part(version: Option<(int, int)>, minor: bool) -> Option<int> {
    match version {
        Some((a, b)) => Some(
            if minor {
                b
            } else {
                a
            },
        ),
        None => None,
    }
}

/// A version probe with what its banner says added.
pub open spec fn with_verdict(probe: JsonView) -> JsonView {
    let version = probed_version(probe);
    let supported = match version {
        Some(v) => new_enough(v),
        None => false,
    };
    let noted = probe.with("minimum_version"@, JsonView::Str(floor_text())).with(
        "major"@,
        JsonView::opt_int(version_part(version, false)),
    ).with("minor"@, JsonView::opt_int(version_part(version, true))).with(
        "supported"@,
        JsonView::Bool(supported),
    );
    noted.with("unsupported_reason"@, unsupported_reason(noted, version))
}

/// Adds the version that a probe's banner holds, and whether it is supported. A probe that is no
/// object is left as it is.
pub fn with_version_verdict(probe: Json) -> (r: Json)
    ensures
        r@ == (if probe@ is Object {
            with_verdict(probe@)
        } else {
            probe@
        }),
{
    if !probe.is_object() {
        return probe;
    }
    let version = match probe.text("stdout") {
        Some(t) => frama_c_version(t),
        None => None,
    };
    let (floor_major, floor_minor) = MIN_FRAMA_C_VERSION;
    let (major, minor, supported): (Json, Json, bool) = match version {
        Some((a, b)) => (
            Json::num(a as u64),
            Json::num(b as u64),
            a > floor_major || (a == floor_major && b >= floor_minor),
        ),
        None => (Json::Null, Json::Null, false),
    };
    let noted = probe.with("minimum_version", Json::Str(min_frama_c_version())).with(
        "major",
        major,
    ).with("minor", minor).with("supported", Json::Bool(supported));
    let reason = match version {
        Some((a, b)) => {
            if supported {
                Json::Null
            } else {
                let v = cat3(
                    decimal_text(a as u64).as_str(),
                    ".",
                    decimal_text(b as u64).as_str(),
                );
                Json::Str(
                    cat5(
                        "Frama-C ",
                        v.as_str(),
                        " is below the ",
                        min_frama_c_version().as_str(),
                        BELOW_FLOOR,
                    ),
                )
            }
        },
        None => {
            let ok = match noted.text("status") {
                Some(t) => same(t, "ok"),
                None => false,
            };
            if ok {
                let banner = match noted.text("stdout") {
                    Some(t) => t,
                    None => "",
                };
                Json::Str(cat2("no version number in the -version banner: ", banner))
            } else {
                Json::str("Frama-C did not report a version")
            }
        },
    };
    noted.with("unsupported_reason", reason)
}

/// A newer version than one that is supported is supported too.
pub proof fn law_newer_is_supported(a: (int, int), b: (int, int))
    requires
        new_enough(a),
        b.0 > a.0 || (b.0 == a.0 && b.1 >= a.1),
    ensures
        new_enough(b),
{
}

// ---------------------------------------------------------------------------
// What holds of a version
// ---------------------------------------------------------------------------

/// From 32.1 on a Frama-C is supported, and none before it.
pub proof fn law_supported_from_the_floor_on(major: int, minor: int)
    ensures
        new_enough((major, minor)) <==> major >= 33 || (major == 32 && minor >= 1),
        !new_enough((32, 0)),
        new_enough((32, 1)),
{
}

/// The verdict on a Frama-C names the floor, the version that was read, whether it is supported,
/// and, where it is not, why.
pub proof fn law_a_verdict_tells_what_was_read(
    probe: JsonView,
    banner: Seq<char>,
    major: int,
    minor: int,
    key: Seq<char>,
)
    requires
        probe is Object,
        key != "minimum_version"@,
        key != "major"@,
        key != "minor"@,
        key != "supported"@,
        key != "unsupported_reason"@,
    ensures
        with_verdict(probe).get(key) == probe.get(key),
        with_verdict(probe).text("minimum_version"@) == Some(floor_text()),
        probe.text("stdout"@) == Some(banner) && version_of(banner) == Some((major, minor)) ==> {
            let v = with_verdict(probe);
            &&& v.get("major"@) == Some(JsonView::num(major))
            &&& v.get("minor"@) == Some(JsonView::num(minor))
            &&& v.flag("supported"@) == Some(major >= 33 || (major == 32 && minor >= 1))
            &&& major >= 33 ==> v.get("unsupported_reason"@) == Some(JsonView::Null)
            &&& 0 <= major < 32 && minor >= 0 ==> v.text("unsupported_reason"@) == Some(
                "Frama-C "@ + (decimal(major as nat) + "."@ + decimal(minor as nat))
                    + " is below the "@ + floor_text() + " this server targets: request names and payload shapes are unverified there, and the ast-utils plugin does not build against it"@,
            )
        },
        probe.text("stdout"@) == Some(banner) && version_of(banner) is None && probe.text(
            "status"@,
        ) == Some("ok"@) ==> with_verdict(probe).flag("supported"@) == Some(false) && with_verdict(
            probe,
        ).text("unsupported_reason"@) == Some(
            "no version number in the -version banner: "@ + banner,
        ),
        probe.text("stdout"@) is None && probe.text("status"@) != Some("ok"@) ==> with_verdict(
            probe,
        ).flag("supported"@) == Some(false) && with_verdict(probe).text("unsupported_reason"@)
            == Some("Frama-C did not report a version"@),
{
    broadcast use crate::json::group_object_reads;

    reveal_strlit("minimum_version");
    reveal_strlit("major");
    reveal_strlit("minor");
    reveal_strlit("supported");
    reveal_strlit("unsupported_reason");
    reveal_strlit("stdout");
    reveal_strlit("status");
    assert("minimum_version"@.len() == 15 && "major"@.len() == 5);
    assert("minor"@.len() == 5 && "supported"@.len() == 9);
    assert("unsupported_reason"@.len() == 18 && "stdout"@.len() == 6);
    assert("status"@.len() == 6);
    assert("major"@[1] != "minor"@[1]);
    assert("stdout"@[2] != "status"@[2]);
}

/// What stands in brackets is no version: a banner is read past it.
pub proof fn law_brackets_are_passed_over(s: Seq<char>, i: int, depth: nat, undotted: Option<int>)
    requires
        0 <= i < s.len(),
    ensures
        depth > 0 && s[i] != '(' && s[i] != ')' ==> version_from(s, i, depth, undotted)
            == version_from(s, i + 1, depth, undotted),
        s[i] == '(' ==> version_from(s, i, depth, undotted) == version_from(
            s,
            i + 1,
            depth + 1,
            undotted,
        ),
        depth > 0 && s[i] == ')' ==> version_from(s, i, depth, undotted) == version_from(
            s,
            i + 1,
            (depth - 1) as nat,
            undotted,
        ),
        depth == 0 && !is_digit(s[i]) && s[i] != '(' ==> version_from(s, i, depth, undotted)
            == version_from(s, i + 1, depth, undotted),
{
}

} // verus!
